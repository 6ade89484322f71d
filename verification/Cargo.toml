[package]
name = "plan_cache"
version = "0.1.0"
edition = "2021"
publish = false

[dependencies]
anyhow = "1"
log = "0.4"
serde = { version = "1", features = ["derive"] }
serde_json = "1"
toml = "*"
try-lazy-init = "*"
playdate-build = "*"
playdate-sys = { version = "*", default-features = false }
playdate-fs = { version = "*", default-features = false }
playdate-color = { version = "*", default-features = false }
