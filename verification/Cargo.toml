[package]
name = "grm"
version = "0.1.0"
edition = "2021"
publish = false

[dependencies]
anyhow = "1"
clap = { version = "4", features = ["derive"] }
colored = "2"
gix-url = "*"
once_cell = "1"
regex = "1"
shell-escape = "0.1"
shlex = "1"
