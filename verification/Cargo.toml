[package]
name = "ticker_aggregator"
version = "0.1.0"
edition = "2021"
publish = false

[dependencies]
hashbrown = { version = "*", features = ["serde"] }
serde = { version = "1", features = ["derive"] }
reqwest = { version = "*", default-features = false, features = ["json", "rustls-tls"] }
tokio = { version = "1", features = ["macros", "rt-multi-thread", "time"] }
futures = "0.3"
async-trait = "0.1"
log = "0.4"
env_logger = { version = "*", default-features = false }
config = { version = "*", default-features = false, features = ["json"] }
