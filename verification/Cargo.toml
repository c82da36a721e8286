[package]
name = "inscriptions"
version = "0.1.0"
edition = "2021"
publish = false

[dependencies]
anyhow = "1"
bitcoin = "0.32"
bitcoincore-rpc = "0.19"
clap = { version = "4", features = ["derive", "env"] }
colored_json = "4"
crossterm = "0.27"
directories = "5"
dotenv = "0.15"
hex = "0.4"
image = "0.24"
inquire = "0.7"
open = "5"
serde_json = "1"
viuer = "0.7"
