[package]
name = "imagen"
version = "0.1.0"
edition = "2021"
publish = false

[dependencies]
ab_glyph = "*"
axum = "*"
color-eyre = "*"
crc32fast = "*"
dotenvy = "*"
flate2 = "*"
serde = { version = "*", features = ["derive"] }
tokio = { version = "*", features = ["full"] }
tracing = "*"
tracing-subscriber = "*"
utoipa = "*"
utoipa-axum = "*"
