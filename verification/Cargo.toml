[package]
name = "cover"
version = "0.1.0"
edition = "2021"
publish = false

[dependencies]
clap = { version = "4", features = ["derive"] }
walkdir = "2"
time = { version = "0.3", features = ["formatting", "macros", "local-offset"] }
