[package]
name = "chdisassemble"
version = "0.1.0"
edition = "2021"
publish = false

[dependencies]
capstone = "*"
object = "*"
clap = { version = "*", features = ["derive"] }
