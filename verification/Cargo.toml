[package]
name = "core_db"
version = "0.1.0"
edition = "2021"
publish = false

[dependencies]
actix-web = "4"
anyhow = "1"
chrono = { version = "0.4", features = ["serde"] }
csv = "1"
dotenvy = "0.15"
encoding_rs = "0.8"
encoding_rs_io = "0.1"
leptos = { version = "0.8", features = ["ssr"] }
leptos_actix = "0.8"
leptos_meta = "0.8"
leptos_router = "0.8"
serde = { version = "1", features = ["derive"] }
sqlx = { version = "0.8", default-features = false, features = ["mysql", "runtime-tokio", "chrono", "macros"] }
tokio = { version = "1", features = ["macros", "rt-multi-thread"] }
