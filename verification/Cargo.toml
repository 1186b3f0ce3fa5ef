[package]
name = "shortlink"
version = "0.1.0"
edition = "2021"
publish = false

[dependencies]
axum = { version = "=0.8.9", features = ["macros"] }
bcrypt = "=0.19.3"
chrono = "=0.4.45"
dotenvy = "=0.15.7"
hypertext = { version = "=0.12.1", features = ["axum", "htmx"] }
maud = "=0.27.0"
nanoid = "=0.5.0"
serde = { version = "=1.0.229", features = ["derive"] }
sqlx = { version = "=0.9.0", default-features = false, features = ["sqlite", "runtime-tokio", "chrono", "derive"] }
thiserror = "=2.0.21"
tokio = { version = "=1.54.1", features = ["rt-multi-thread", "macros", "signal", "sync", "time", "net"] }
tower-http = { version = "=0.7.1", features = ["fs"] }
tracing = "=0.1.44"
tracing-subscriber = "=0.3.23"
