[package]
name = "ftp_core"
version = "0.1.0"
edition = "2021"
publish = false

[dependencies]
uuid = { version = "=1.27.0", features = ["v4"] }
base64 = "=0.22.1"
suppaftp = { version = "=8.0.5", features = ["rustls-ring"] }
rustls = { version = "=0.23.45", default-features = false, features = ["ring", "std", "logging", "tls12"] }
rustls-native-certs = "=0.8.4"
