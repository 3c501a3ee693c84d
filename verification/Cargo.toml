[package]
name = "glow_plug"
version = "0.1.0"
edition = "2021"
publish = false

[dependencies]
rand = "0.8"
diesel = "2"
diesel_migrations = "2"
dotenvy = "0.15"
futures = "0.3"
tokio = { version = "1", features = ["macros", "rt"] }
syn = { version = "2", features = ["full"] }
quote = "1"
proc-macro2 = "1"
