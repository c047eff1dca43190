[package]
name = "task_api"
version = "0.1.0"
edition = "2021"
publish = false

[dependencies]
axum = "*"
axum-keycloak-auth = "*"
reqwest = { version = "*", default-features = false }
serde = { version = "*", features = ["derive"] }
serde_json = "*"
sqlx = { version = "*", default-features = false, features = ["runtime-tokio", "postgres", "migrate"] }
tokio = { version = "*", features = ["full"] }
tower-http = { version = "*", features = ["fs"] }
tracing = "*"
tracing-subscriber = "*"
utoipa = "*"
utoipa-swagger-ui = { version = "*", features = ["axum"] }
