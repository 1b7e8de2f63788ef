[package]
name = "jayson"
version = "0.1.0"
edition = "2021"
publish = false

[dependencies]
convert_case = "0.6"
serde_json = "1"
syn = { version = "1", features = ["full", "extra-traits"] }
quote = "1"
proc-macro2 = "1"
