[package]
name = "gerb"
version = "0.1.0"
edition = "2021"
publish = false

[dependencies]
indexmap = "2"
plist = "1"
rand = "0.8"
serde = { version = "1", features = ["derive"] }
uuid = { version = "1", features = ["v4"] }
quick-xml = { version = "*", features = ["serialize"] }
