[package]
name = "oracle_sync"
version = "0.1.0"
edition = "2021"
publish = false

[dependencies]
anyhow = "1"
dotenv = "0.15"
ethers = { version = "2", default-features = false, features = ["abigen"] }
tokio = { version = "1", default-features = false, features = ["macros", "rt-multi-thread", "time"] }
