[package]
name = "symtrace_mcp"
version = "0.1.0"
edition = "2021"
publish = false

[dependencies]
url = "2"
serde = { version = "1", features = ["derive"] }
serde_json = "1"
tokio = { version = "1", features = ["full"] }
toml = "*"
tracing = "0.1"
tracing-appender = "0.2"
tracing-subscriber = { version = "0.3", features = ["json", "fmt", "registry"] }
moka = { version = "0.12", features = ["future"] }
clap = { version = "4", features = ["derive"] }
turso = "*"
