[package]
name = "proxmox_misc"
version = "0.1.0"
edition = "2021"
publish = false

[dependencies]
jiff = "0.2"
regex = "1"
anyhow = "1"
serde = { version = "1", features = ["derive"] }
termcolor = "1"
