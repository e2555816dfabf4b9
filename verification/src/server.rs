pub mod idle_monitor;
pub mod manager;
