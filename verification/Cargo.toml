[package]
name = "conduit"
version = "0.1.0"
edition = "2021"
publish = false

[dependencies]
bcrypt = "*"
jsonwebtoken = "9"
chrono = "*"
uuid = { version = "*", features = ["v4", "serde"] }
serde = { version = "*", features = ["derive"] }
serde_json = "*"
anyhow = "*"
actix-web = { version = "*", default-features = false, features = ["macros"] }
diesel = { version = "*", features = ["postgres", "r2d2", "uuid", "chrono"] }
