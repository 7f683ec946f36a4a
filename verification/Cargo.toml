[package]
name = "wtid_lms"
version = "0.1.0"
edition = "2021"
publish = false

[dependencies]
chrono = "=0.4.45"
serde = { version = "=1.0.229", features = ["derive"] }
serde_json = "=1.0.151"
tokio = { version = "=1.53.2", features = ["macros", "rt-multi-thread", "time", "sync"] }
warp = { version = "=0.4.3", features = ["server"] }
uuid = { version = "=1.27.0", features = ["v4"] }
async-trait = "=0.1.92"
