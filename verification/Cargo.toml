[package]
name = "beditor"
version = "0.1.0"
edition = "2021"
publish = false

[dependencies]
base64 = "=0.22.1"
icu_locale_core = { version = "=2.4.0", features = ["alloc"] }
serde = { version = "=1.0.229", features = ["derive"] }
strum = { version = "=0.28.0", features = ["derive"] }
tracing = "=0.1.44"
