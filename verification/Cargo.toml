[package]
name = "recipe_engine"
version = "0.1.0"
edition = "2021"
publish = false

[dependencies]
dotenvy = "*"
regex = "*"
serde_json = "*"
edit-distance = "*"
