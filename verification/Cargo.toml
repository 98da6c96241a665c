[package]
name = "loadtest"
version = "0.1.0"
edition = "2021"
publish = false

[dependencies]
clap = "=4.6.7"
reqwest = { version = "=0.12.28", default-features = false, features = ["blocking"] }

[dev-dependencies]
http = "=1.5.0"
