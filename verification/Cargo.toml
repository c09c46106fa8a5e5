[package]
name = "ore_hq_server"
version = "0.1.0"
edition = "2021"
publish = false

[dependencies]
drillx = "*"
tokio = { version = "*", features = ["full"] }
axum = { version = "*", features = ["ws"] }
futures = "*"
tower-http = { version = "*", features = ["trace"] }
tracing = "*"
tracing-subscriber = { version = "*", features = ["env-filter"] }
dotenv = "*"
