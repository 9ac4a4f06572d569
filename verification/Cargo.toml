[package]
name = "vin"
version = "0.1.0"
edition = "2021"
publish = false

[dependencies]
byteorder = "1"
encoding = "0.2"
hex = "0.4"
serde = { version = "1", features = ["derive"] }
serde_repr = "0.1"
thiserror = "1"
