[package]
name = "inkback"
version = "0.1.0"
edition = "2021"
publish = false

[dependencies]
rayon = "1"
time = { version = "0.3", features = ["formatting"] }
csv = "1"
anyhow = "1"
