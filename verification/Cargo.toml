[package]
name = "asr_rs"
version = "0.1.0"
edition = "2021"
publish = false

[dependencies]
anyhow = "=1.0.104"
async-trait = "=0.1.92"
axum = "=0.7.9"
chrono = { version = "=0.4.45", features = ["serde"] }
dotenv = "=0.15.0"
governor = { version = "=0.10.4", default-features = false, features = ["std"] }
hound = "=3.5.1"
once_cell = "=1.21.4"
rayon = "=1.12.0"
reqwest = { version = "=0.12.28", default-features = false, features = ["json", "rustls-tls"] }
rubato = "=0.15.0"
rustfft = "=6.4.1"
sea-orm = { version = "=1.1.20", default-features = false, features = ["sqlx-sqlite", "runtime-tokio-rustls", "macros", "with-chrono"] }
serde = { version = "=1.0.229", features = ["derive"] }
serde_json = "=1.0.154"
tokio = { version = "=1.54.1", features = ["full"] }
tracing = "=0.1.44"
uuid = { version = "=1.29.0", features = ["v4"] }
whisper-rs = "=0.11.1"
