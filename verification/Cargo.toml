[package]
name = "real_world_rust_graphql"
version = "0.1.0"
edition = "2021"
publish = false

[dependencies]
actix-web = "3"
actix-web-httpauth = "0.5"
bcrypt = "0.10"
chrono = "0.4"
diesel = { version = "1.4", features = ["postgres", "r2d2", "chrono"] }
dotenv = "0.15"
jsonwebtoken = "7"
juniper = "0.15"
juniper_actix = "0.2"
serde = { version = "1", features = ["derive"] }
serde_json = "1"
slugify = "0.1"
