[package]
name = "crudly"
version = "0.1.0"
edition = "2021"
publish = false

[dependencies]
heck = "0.5"
syn = { version = "2", features = ["full", "extra-traits"] }
quote = "1"
proc-macro2 = "1"
sqlx = { version = "0.8", default-features = false, features = ["sqlite", "mysql", "postgres", "runtime-tokio"] }
