[package]
name = "svf_server"
version = "0.1.0"
edition = "2021"
publish = false

[dependencies]
rand = "*"
sha2 = "*"
tokio = { version = "*", features = ["full"] }
axum = "*"
futures = "*"
local-ip-address = "*"
serde = { version = "*", features = ["derive"] }
reqwest = { version = "*", default-features = false }
tokio-postgres = "*"
tower = "*"
tower-http = { version = "*", features = ["cors"] }
dotenv = "*"
