[package]
name = "address_gen"
version = "0.1.0"
edition = "2021"
publish = false

[dependencies]
ethers-core = "2.0"
anyhow = "1"
candid = "*"
ic-agent = "*"
ic-utils = "*"
serde = { version = "1", features = ["derive"] }
tokio = { version = "1", features = ["macros", "rt-multi-thread"] }
