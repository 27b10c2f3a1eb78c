[package]
name = "p2p_core"
version = "0.1.0"
edition = "2021"
publish = false

[dependencies]
aes-gcm = "0.10"
sha2 = "0.10"
rand = "0.8"
bincode = "1.3"
serde = { version = "1", features = ["derive"] }
bip39 = "2"
local-ip-address = "*"
network-interface = "*"
ureq = "2"
