[package]
name = "fanrs"
version = "0.12.0"
edition = "2021"
publish = false

[dependencies]
anyhow = "=1.0.104"
chrono = "=0.4.45"
clap = { version = "=4.6.7", features = ["derive", "env"] }
diesel = { version = "=2.3.14", default-features = false, features = ["postgres_backend", "chrono"] }
diesel-async = { version = "=0.7.4", features = ["postgres", "deadpool"] }
dotenv = "=0.15.0"
regex = "=1.13.1"
reqwest = "0.13"
roxmltree = "=0.21.2"
scraper = "0.25"
slug = "=0.1.6"
tokio = { version = "=1.54.1", features = ["macros", "rt-multi-thread", "fs"] }
tracing = "=0.1.44"
tracing-subscriber = "=0.3.23"

[dev-dependencies]
ructe = "=0.18.2"
