[package]
name = "cgit_auth"
version = "0.3.0"
edition = "2021"
publish = false

[dependencies]
anyhow = "1"
argon2 = "0.2"
clap = "2"
handlebars = "4"
log = "0.4"
log4rs = "1"
rand_core = { version = "0.6", features = ["getrandom"] }
redis = { version = "0.21", features = ["tokio-comp"] }
serde = { version = "1", features = ["derive"] }
sqlx = { version = "0.7", default-features = false, features = ["runtime-tokio", "sqlite"] }
tempdir = "0.3"
tokio = { version = "1", features = ["rt"] }
tokio-stream = "0.1"
uuid = { version = "0.8", features = ["v4"] }
