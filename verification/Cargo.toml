[package]
name = "webauthn_core"
version = "0.1.0"
edition = "2021"
publish = false

[dependencies]
lru = "0.6"
webauthn-rs = "0.3.0-alpha.1"
async-std = "1"
diesel = { version = "1.4", features = ["postgres", "r2d2"] }
dotenv = "0.15"
log = "0.4"
parking_lot = "0.11"
pretty_env_logger = "0.4"
serde = { version = "1", features = ["derive"] }
serde_derive = "1"
tokio = { version = "0.2", features = ["full"] }
warp = "0.2"
