[package]
name = "readit"
version = "0.1.0"
edition = "2021"
publish = false

[dependencies]
md5 = "=0.7.0"
serde = { version = "1", features = ["derive"] }
serde_json = "1"
serde_yml = "=0.0.13"
home = "=0.5.12"
clap = { version = "=4.6.7", features = ["derive"] }
tokio = { version = "=1.53.2", features = ["rt-multi-thread", "macros", "sync"] }
futures = "=0.3.34"
async-openai = { version = "=0.42.1", features = ["chat-completion", "embedding"] }
