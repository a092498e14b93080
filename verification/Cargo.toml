[package]
name = "maomi_lib"
version = "0.1.0"
edition = "2021"
publish = false

[dependencies]
proc-macro2 = "1"
syn = { version = "2", features = ["full"] }
quote = "1"
html-escape = "0.2"
toml = "0.8"
serde = { version = "1", features = ["derive"] }
clap = { version = "4", features = ["derive"] }
rustc-hash = "*"
