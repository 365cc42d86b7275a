[package]
name = "bob_the_builder"
version = "0.1.0"
edition = "2021"

[dependencies]
toml = "=0.8.23"
glob = "=0.3.4"
brotli = { version = "=9.0.0", features = ["portable-float"] }
getopts = "=0.2.24"
anyhow = "=1.0.104"
