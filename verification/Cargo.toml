[package]
name = "ronin"
version = "0.1.0"
edition = "2021"
publish = false

[dependencies]
pulldown-cmark = { version = "=0.13.6", default-features = false }
syntect = { version = "=5.3.0", default-features = false, features = ["default-fancy"] }
image = { version = "=0.25.10", default-features = false, features = ["png"] }
thiserror = "2"
libc = "0.2"
