[package]
name = "pg_wal_budget"
version = "0.1.0"
edition = "2021"
publish = false

[dependencies]
pgrx = { version = "=0.18.1", default-features = false, features = ["pg17"] }
