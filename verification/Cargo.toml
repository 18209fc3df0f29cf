[package]
name = "ijevim"
version = "0.1.0"
edition = "2021"
publish = false

[dependencies]
ropey = "1.6"
regex = "1"
unicode-width = "*"
crossterm = "*"
tokio = { version = "1", features = ["rt", "fs", "macros", "io-util"] }
toml = "*"
serde_json = "1"
thiserror = "*"
syntect = { version = "5", default-features = false, features = ["default-fancy"] }
libloading = "*"
rust_lisp = "*"
mlua = { version = "*", features = ["lua54", "vendored"] }
quickjs-rusty = "*"
