[package]
name = "finflows"
version = "0.1.0"
edition = "2021"
publish = false

[dependencies]
serde = { version = "1", features = ["derive"] }
serde_json = "1"
thiserror = "1"
async-trait = "0.1"
time = { version = "0.3", features = ["macros", "parsing", "formatting"] }
