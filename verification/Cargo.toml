[package]
name = "book_manager"
version = "0.1.0"
edition = "2021"
publish = false

[dependencies]
axum = "=0.8.9"
bcrypt = "=0.19.3"
chrono = { version = "=0.4.45", default-features = false, features = ["clock"] }
getrandom = "=0.4.3"
serde = { version = "=1.0.229", features = ["derive"] }
tokio = { version = "=1.54.1", features = ["macros", "rt-multi-thread", "net", "signal"] }
uuid = { version = "=1.29.0", features = ["v4"] }
