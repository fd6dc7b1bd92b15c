[package]
name = "db"
version = "0.1.0"
edition = "2021"
publish = false

[dependencies]
bigdecimal = "0.4"
chrono = "0.4"
diesel = { version = "2", features = ["postgres", "numeric", "chrono"] }
dotenvy = "0.15"
envy = "0.4"
serde = { version = "1", features = ["derive"] }
