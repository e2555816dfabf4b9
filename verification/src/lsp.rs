pub mod client;
pub mod file_manager;
pub mod transport;
pub mod requests;
pub mod types;
