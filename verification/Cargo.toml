[package]
name = "openlibrary"
version = "0.1.0"
edition = "2021"
publish = false

[dependencies]
bytes = "=1.12.1"
const_format = "=0.2.37"
reqwest = { version = "=0.13.5", features = ["query"] }
serde = { version = "=1.0.229", features = ["derive"] }
serde_json = { version = "=1.0.154", features = ["raw_value"] }
serde_with = "=3.24.0"
smallvec = { version = "=1.16.4", features = ["serde", "const_generics"] }
