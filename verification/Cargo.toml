[package]
name = "imap_codec"
version = "0.1.0"
edition = "2021"
publish = false

[dependencies]
base64 = "0.21"
log = "0.4"
serde = { version = "1", features = ["derive"] }
arbitrary = { version = "1", features = ["derive"] }
bounded-static = { version = "*", features = ["derive"] }

[dev-dependencies]
nom = "7"
abnf-core = "*"
