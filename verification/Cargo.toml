[package]
name = "sqlx_error"
version = "0.1.0"
edition = "2021"
publish = false

[dependencies]
code-path = "*"
sqlx-core = { version = "*", default-features = false }
