[package]
name = "pufferfish"
version = "0.1.0"
edition = "2021"
publish = false

[dependencies]
grid = "*"
divisors_fixed = "*"
rand = "*"
anyhow = "*"
clap = { version = "*", features = ["derive"] }
