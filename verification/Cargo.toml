[package]
name = "todo_axum_htmx"
version = "0.1.0"
edition = "2021"
publish = false

[dependencies]
ring = "=0.17.14"
data-encoding = "=2.11.1"
axum = "=0.8.9"
tokio = { version = "=1.53.2", features = ["full"] }
tower-cookies = "=0.11.0"
serde = { version = "*", features = ["derive"] }
