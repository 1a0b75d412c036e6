[package]
name = "synthesizer"
version = "0.1.0"
edition = "2021"
publish = false

[dependencies]
actix-web = { version = "4", default-features = false, features = ["macros"] }
anyhow = "1"
chrono = "0.4"
clap = { version = "4", features = ["cargo"] }
config = { version = "*", default-features = false, features = ["toml"] }
cron-parser = "*"
reqwest = { version = "*", default-features = false, features = ["blocking", "json"] }
serde = { version = "1", features = ["derive"] }
serde_json = "1"
serde_yaml = "0.9"
sqlx = { version = "*", default-features = false, features = ["runtime-tokio", "sqlite"] }
tokio = { version = "1", features = ["macros", "rt-multi-thread", "time"] }
tracing = "0.1"
tracing-actix-web = "*"
tracing-log = "*"
tracing-subscriber = { version = "0.3", features = ["env-filter"] }
