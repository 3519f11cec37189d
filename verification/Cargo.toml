[package]
name = "shindaggers"
version = "0.1.0"
edition = "2021"
publish = false

[dependencies]
actix-web = { version = "4", default-features = false }
chrono = "0.4"
sqlx = { version = "0.8", default-features = false, features = ["mysql", "runtime-tokio", "chrono", "derive", "macros"] }
tokio = { version = "1", features = ["macros", "rt-multi-thread"] }
