[package]
name = "revproxy"
version = "0.1.0"
edition = "2021"
publish = false

[dependencies]
actix-web = { version = "*", default-features = false, features = ["macros"] }
async-std = "*"
futures = "*"
reqwest = { version = "*", default-features = false, features = ["blocking"] }
