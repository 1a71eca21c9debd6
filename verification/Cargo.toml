[package]
name = "clu"
version = "0.1.0"
edition = "2021"
publish = false

[dependencies]
chrono = "=0.4.45"
clap = { version = "=4.6.7", features = ["derive"] }
inquire = { version = "=0.9.4", features = ["editor"] }
octocrab = "=0.40.0"
regex = "=1.13.1"
reqwest = { version = "=0.13.5", features = ["json"] }
serde = { version = "=1.0.229", features = ["derive"] }
serde_json = "=1.0.154"
thiserror = "=2.0.21"
tokio = { version = "=1.54.1", features = ["macros", "rt-multi-thread"] }
url = "=2.5.8"
