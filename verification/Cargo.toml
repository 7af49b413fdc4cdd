[package]
name = "markdown_links"
version = "0.1.0"
edition = "2021"
publish = false

[dependencies]
fdg-sim = "=0.9.1"
futures = "=0.3.34"
iced = { version = "=0.9.0", default-features = false, features = ["glow", "canvas", "tokio"] }
log = "=0.4.34"
neovim-lib = "=0.6.1"
rmp = "=0.8.8"
walkdir = "=2.5.0"

[dev-dependencies]
grep-matcher = "=0.1.9"
grep-regex = "=0.1.14"
