[package]
name = "freqdirs"
version = "0.1.0"
edition = "2021"
publish = false

[dependencies]
sqlite = "*"
fs2 = "0.4"
clap = { version = "4", features = ["derive"] }
ignore = "0.4"
