[package]
name = "ip_over_airtag"
version = "0.1.0"
edition = "2021"
publish = false

[dependencies]
p224 = "=0.13.2"
sha2 = "=0.10.9"
hex = "=0.4.3"
base64 = "=0.22.1"
rand = "=0.8.8"
anyhow = "=1.0.104"
