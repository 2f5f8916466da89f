[package]
name = "mctui"
version = "0.1.0"
edition = "2021"
publish = false

[dependencies]
azalea = "*"
crossterm = "*"
eyre = "*"
tokio = { version = "*", features = ["macros", "rt-multi-thread"] }
