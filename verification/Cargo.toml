[package]
name = "homebins"
version = "0.1.0"
edition = "2021"
publish = false

[dependencies]
anyhow = "=1.0.104"
colored = "=2.2.0"
regex = "=1.13.1"
sha2 = "=0.10.9"
versions = "=8.0.1"
