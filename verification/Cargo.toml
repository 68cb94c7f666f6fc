[package]
name = "cmdc"
version = "0.1.0"
edition = "2021"
publish = false

[dependencies]
chrono = "0.4"
zip = { version = "2", default-features = false, features = ["deflate"] }
tokio = { version = "1", features = ["full"] }
clokwerk = "0.4"
sentry = { version = "0.34", default-features = false, features = ["backtrace", "contexts", "panic", "reqwest", "rustls"] }
reqwest = { version = "0.12", default-features = false, features = ["rustls-tls"] }
azure_identity = { version = "0.21", default-features = false, features = ["enable_reqwest_rustls"] }
azure_security_keyvault = { version = "0.21", default-features = false, features = ["enable_reqwest_rustls"] }
azure_storage = { version = "0.21", default-features = false, features = ["enable_reqwest_rustls"] }
azure_storage_blobs = { version = "0.21", default-features = false, features = ["enable_reqwest_rustls"] }
