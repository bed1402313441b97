[package]
name = "socratic_post"
version = "0.1.0"
edition = "2021"
publish = false

[dependencies]
clap = { version = "4", features = ["derive"] }
dotenv = "0.15"
reqwest = { version = "0.12", features = ["blocking", "json"] }
serde = "1"
serde_derive = "1"
thiserror = "1"
url = "2"
