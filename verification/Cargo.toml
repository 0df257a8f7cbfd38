[package]
name = "cargo_scaffold"
version = "0.1.0"
edition = "2021"
publish = false

[dependencies]
anyhow = "*"
auth-git2 = "*"
clap = { version = "*", features = ["derive"] }
console = "*"
dialoguer = "*"
git2 = "*"
globset = "*"
handlebars = "*"
md5 = "*"
shell-words = "*"
toml = "*"
walkdir = "*"
