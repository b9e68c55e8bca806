[package]
name = "duktape"
version = "0.1.0"
edition = "2021"
publish = false

[dependencies]
inflections = "=1.1.1"
proc-macro2 = "=1.0.107"
quote = "=1.0.47"
serde = { version = "=1.0.229", features = ["derive"] }
syn = { version = "=1.0.109", features = ["full"] }
thiserror = "=1.0.69"
