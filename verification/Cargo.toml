[package]
name = "udamanami"
version = "0.1.0"
edition = "2021"
publish = false

[dependencies]
anyhow = "=1.0.104"
async-openai = { version = "=0.42.2", features = ["chat-completion"] }
dashmap = "=6.2.1"
rand = "=0.9.5"
regex = "=1.13.1"
serenity = "=0.12.5"
shuttle-runtime = "=0.57.0"
shuttle-serenity = "=0.57.0"
tokio = { version = "=1.54.1", features = ["macros", "rt-multi-thread", "time"] }
tracing = "=0.1.44"
