pub mod json;
pub mod language;
pub mod text;
pub mod logging;
pub mod sample;
pub mod config;
pub mod lsp;
pub mod server;
pub mod project;
pub mod stats;
pub mod uri;
pub mod mcp;
