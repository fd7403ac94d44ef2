[package]
name = "sesh"
version = "0.1.0"
edition = "2021"
publish = false

[dependencies]
serde_json = "*"
time = { version = "*", features = ["parsing"] }
zip = { version = "*", default-features = false, features = ["deflate"] }
anyhow = "*"
clap = { version = "*", features = ["derive"] }
tabwriter = "*"
