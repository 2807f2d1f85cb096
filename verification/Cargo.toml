[package]
name = "chronomap"
version = "0.1.0"
edition = "2021"
publish = false

[dependencies]
printpdf = "0.7"
rusqlite = { version = "*", features = ["bundled"] }
serde = { version = "*", features = ["derive"] }
serde_json = "*"
uuid = { version = "*", features = ["v4"] }
csv = "*"
