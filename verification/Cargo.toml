[package]
name = "lsp_gateway"
version = "0.1.0"
edition = "2021"
publish = false

[dependencies]
dashmap = "*"
serde_json = "*"
regex = "*"
serde = { version = "*", features = ["derive"] }
chrono = "*"
sysinfo = "*"
git2 = { version = "*", default-features = false }
