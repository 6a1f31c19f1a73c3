[package]
name = "arb_monitor"
version = "0.1.0"
edition = "2021"
publish = false

[dependencies]
dotenv = "=0.15.0"
ethers-core = "2"
ethers-providers = { version = "2", default-features = false, features = ["ws", "rustls"] }
ethers-contract = { version = "2", default-features = false, features = ["providers"] }
tokio = { version = "1", features = ["macros", "rt-multi-thread", "time"] }
