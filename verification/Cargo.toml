[package]
name = "backend_website"
version = "0.1.0"
edition = "2021"
publish = false

[dependencies]
argon2 = "0.5"
regex = "1"
totp-rs = { version = "5", features = ["otpauth", "qr", "gen_secret"] }
jsonwebtoken = "9"
chrono = { version = "0.4", features = ["serde"] }
serde = { version = "1", features = ["derive"] }
serde_json = "1"
axum = "0.8"
tokio = { version = "1", features = ["full"] }
reqwest = { version = "0.12", features = ["json"] }
sqlx = { version = "0.8", features = ["postgres", "runtime-tokio", "chrono", "json", "migrate"] }
lettre = { version = "0.11", features = ["tokio1", "tokio1-native-tls"] }
tracing = "0.1"
tracing-subscriber = { version = "0.3", features = ["env-filter"] }
utoipa = { version = "5", features = ["axum_extras", "chrono"] }
dotenvy = "0.15"
time = "0.3"
tower-http = { version = "0.6", features = ["cors"] }
tower-sessions = "0.14"
tower-sessions-sqlx-store = { version = "0.15", features = ["postgres"] }
