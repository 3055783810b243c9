[package]
name = "laravel_tips"
version = "0.1.0"
edition = "2021"
publish = false

[dependencies]
anyhow = "*"
argh = "*"
async-trait = "*"
base64 = "*"
console = "*"
futures = "*"
home = "*"
rand = "*"
reqwest = { version = "*", default-features = false, features = ["json"] }
rusqlite = { version = "*", features = ["bundled"] }
serde = { version = "*", features = ["derive"] }
serde_json = "*"
termimad = "*"
tokio = { version = "*", features = ["macros", "rt-multi-thread"] }
