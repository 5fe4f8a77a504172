[package]
name = "sushi_api"
version = "0.1.0"
edition = "2021"
publish = false

[dependencies]
async-trait = "*"
dotenv = "*"
poem = { version = "*", features = ["static-files"] }
sea-orm = { version = "*", default-features = false, features = ["sqlx-sqlite", "runtime-tokio-rustls", "macros"] }
sea-orm-migration = { version = "*", default-features = false, features = ["sqlx-sqlite", "runtime-tokio-rustls"] }
serde = { version = "*", features = ["derive"] }
tokio = { version = "*", features = ["macros", "rt-multi-thread"] }
