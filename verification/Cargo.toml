[package]
name = "stocktake"
version = "2.0.0"
edition = "2021"
publish = false

[dependencies]
actix-web = { version = "=4.18.1", default-features = false, features = ["macros"] }
actix-files = "=0.6.10"
chrono = "=0.4.45"
connection-string = "=0.2.0"
deadpool-tiberius = "=0.1.9"
futures-util = "=0.3.34"
serde = { version = "=1.0.229", features = ["derive"] }
serde_json = "=1.0.154"
thiserror = "=2.0.21"
tiberius = { version = "=0.12.3", features = ["tds73", "native-tls", "chrono"] }
toml = "=0.8.23"
