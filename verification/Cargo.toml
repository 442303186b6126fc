[package]
name = "mcp_gateway"
version = "0.1.0"
edition = "2021"
publish = false

[dependencies]
url = "2"
sha2 = "0.10"
hex = "0.4"
serde = { version = "1", features = ["derive"] }
serde_json = "1"
serde_yaml = "0.9"
toml = "0.8"
clap = { version = "4", features = ["derive"] }
directories = "5"
rand = "0.8"
time = { version = "0.3", features = ["formatting"] }
terminal_size = "0.4"
open = "5"
secrecy = "0.10"
thiserror = "2"
reqwest = { version = "0.12", default-features = false, features = ["blocking", "json", "rustls-tls"] }
openapiv3 = "2"
oas3 = "*"
jsonschema = { version = "0.51", default-features = false }
