[package]
name = "genetic"
version = "0.1.0"
edition = "2021"
publish = false

[dependencies]
rand = "0.8"
clap = { version = "4", features = ["derive"] }
log = "0.4"
simple_logger = "4"
indicatif = "0.17"
ctrlc = "3"
