[package]
name = "chip8_vm"
version = "0.1.0"
edition = "2021"
publish = false

[dependencies]
rand = "0.8"
serde = { version = "1", features = ["derive"] }
serde_yaml = "0.9"
log = "0.4"
anyhow = "1"
thiserror = "1"
flexi_logger = "0.29"
