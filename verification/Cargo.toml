[package]
name = "excalidraw"
version = "0.1.0"
edition = "2021"
publish = false

[dependencies]
anyhow = "1"
axum = "0.6"
blake3 = "1"
dotenv = "0.15"
env_logger = "0.10"
log = "0.4"
palette = "*"
piet = "*"
piet-common = "*"
png = "0.17"
rough_piet = "*"
roughr = "*"
tokio = { version = "1", features = ["macros", "rt-multi-thread"] }
