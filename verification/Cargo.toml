[package]
name = "research_tracker"
version = "0.1.0"
edition = "2021"
publish = false

[dependencies]
clap = { version = "=4.6.7", features = ["derive"] }
csv = "=1.4.0"
serde = { version = "=1.0.229", features = ["derive"] }
terra-plr = "=0.2.5"
