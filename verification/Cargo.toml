[package]
name = "chordle"
version = "0.1.0"
edition = "2021"
publish = false

[dependencies]
axum = "0.8"
axum-extra = { version = "0.10", features = ["cookie"] }
clap = { version = "4", features = ["derive", "env", "cargo"] }
color-eyre = "0.6"
fluent = "0.16"
intl-memoizer = "0.5"
jiff = { version = "0.2", features = ["serde"] }
maud = { version = "0.27", features = ["axum"] }
md5 = "0.7"
serde = { version = "1", features = ["derive"] }
sqlx = { version = "0.8", default-features = false, features = ["sqlite", "runtime-tokio"] }
tokio = { version = "1", features = ["full"] }
tower-http = { version = "0.6", features = ["catch-panic"] }
tracing = "0.1"
tracing-subscriber = "0.3"
unic-langid = { version = "0.9", features = ["macros"] }
