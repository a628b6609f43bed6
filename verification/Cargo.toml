[package]
name = "deadlock_cli"
version = "0.1.0"
edition = "2021"
publish = false

[dependencies]
url = "=2.5.8"
httpdate = "=1.0.3"
anyhow = "=1.0.104"
thiserror = "=2.0.21"
serde = { version = "=1.0.229", features = ["derive"] }
serde_json = "=1.0.151"
chrono = "=0.4.45"
dotenvy = "=0.15.7"
clap = { version = "=4.6.7", features = ["derive"] }
comfy-table = "=8.0.1"
reqwest = { version = "=0.13.5", default-features = false, features = ["blocking", "json", "query"] }
sqlx = { version = "=0.9.0", default-features = false, features = ["postgres", "runtime-tokio", "chrono", "json"] }
tokio = { version = "=1.53.2", features = ["rt-multi-thread", "macros", "time"] }
