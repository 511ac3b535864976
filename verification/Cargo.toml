[package]
name = "rinha"
version = "0.1.0"
edition = "2021"
publish = false

[dependencies]
chrono = { version = "0.4", default-features = false, features = ["std"] }
uuid = { version = "1", features = ["v4"] }
dashmap = "5"
serde = { version = "1", features = ["derive"] }
serde_json = "1"
tokio = { version = "1", features = ["macros", "rt-multi-thread", "sync", "time"] }
actix-web = { version = "4", default-features = false, features = ["macros"] }
actix-cors = "0.6"
sqlx = { version = "0.7", default-features = false, features = ["runtime-tokio", "postgres"] }
dotenv = "0.15"
tracing = "0.1"
tracing-subscriber = { version = "0.3", features = ["env-filter", "fmt", "registry"] }
tracing-actix-web = "0.7"
tracing-bunyan-formatter = "0.3"
tracing-opentelemetry = "0.21"
opentelemetry = { version = "0.20", features = ["rt-tokio-current-thread"] }
opentelemetry-otlp = "0.13"
