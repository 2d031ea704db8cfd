[package]
name = "repo_stats"
version = "0.1.0"
edition = "2021"
publish = false

[dependencies]
dotenv = "*"
futures = "*"
reqwest = { version = "*", default-features = false, features = ["rustls-tls"] }
serde_json = "*"
tokio = { version = "*", features = ["macros", "rt-multi-thread", "time"] }
