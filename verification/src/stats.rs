pub mod query;
pub mod recorder;
