[package]
name = "adm_sfa"
version = "0.1.0"
edition = "2021"
publish = false

[dependencies]
rust_decimal = "=1.43.0"
subtle = "=2.6.1"
chrono = "=0.4.45"
rusqlite = { version = "=0.41.1", features = ["bundled"] }
zip = { version = "=9.2.2", default-features = false, features = ["deflate"] }
walkdir = "=2.5.0"
dirs = "=7.0.0"
form_urlencoded = "1"
