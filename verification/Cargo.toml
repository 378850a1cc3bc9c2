[package]
name = "flowmon"
version = "0.1.0"
edition = "2021"
publish = false

[dependencies]
etherparse = "0.14"
pcap = "1"
procfs = "0.14"
single_value_channel = "1.2"
actix-web = "4"
actix-cors = "0.6"
serde = { version = "1", features = ["derive"] }
serde_json = "1"
libc = "0.2"
