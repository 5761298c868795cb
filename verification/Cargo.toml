[package]
name = "packet_pincer"
version = "0.1.0"
edition = "2021"
publish = false

[dependencies]
etherparse = "*"
priority-queue = "*"
chrono = "*"
clap = { version = "*", features = ["derive"] }
csv = "*"
ctrlc = "*"
env_logger = "*"
log = "*"
pcap = "*"
serde = { version = "*", features = ["derive"] }
walkdir = "*"
