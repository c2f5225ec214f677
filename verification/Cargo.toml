[package]
name = "rust_typer"
version = "0.1.0"
edition = "2021"
publish = false

[dependencies]
serde_json = "*"
rand = "*"
clap = "*"
crossterm = "*"
reqwest = { version = "*", default-features = false }
termion = "*"
tokio = { version = "*", features = ["macros", "rt-multi-thread"] }
