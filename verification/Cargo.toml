[package]
name = "skill_tree"
version = "0.1.0"
edition = "2021"
publish = false

[dependencies]
htmlescape = "0.3"
toml = "*"
serde = { version = "*", features = ["derive"] }
anyhow = "*"
