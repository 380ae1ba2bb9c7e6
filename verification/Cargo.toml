[package]
name = "schema2code"
version = "0.1.0"
edition = "2021"
publish = false

[dependencies]
monostate = "=0.1.18"
proc-macro2 = { version = "=1.0.107", default-features = false }
quote = { version = "=1.0.47", default-features = false }
rayon = "=1.12.0"
serde = { version = "=1.0.229", features = ["derive"] }
serde_json = "=1.0.154"
serde_yaml = "=0.9.34"
syn = { version = "=2.0.119", default-features = false, features = ["clone-impls", "full", "parsing", "printing"] }
tempfile = "=3.27.0"
