[package]
name = "juno"
version = "0.1.0"
edition = "2021"
publish = false

[dependencies]
actix-cors = "0.7"
actix-web = "4"
argon2 = { version = "0.5", features = ["std"] }
chrono = { version = "0.4", features = ["serde"] }
env_logger = "0.11"
futures-util = "0.3"
jsonwebtoken = "9"
lettre = { version = "0.11", default-features = false, features = ["builder", "smtp-transport", "hostname", "tokio1", "tokio1-rustls-tls"] }
log = "0.4"
netflow_parser = "0.5.9"
quick-xml = "0.31"
serde = { version = "1", features = ["derive"] }
serde_json = "1"
snmp = "0.2"
sqlx = { version = "0.7", default-features = false, features = ["runtime-tokio", "postgres", "chrono", "json", "migrate"] }
tokio = { version = "1", features = ["full"] }
