[package]
name = "mdcat"
version = "0.1.0"
edition = "2021"
publish = false

[dependencies]
ansi_term = "0.12"
pulldown-cmark = { version = "0.7", default-features = false }
syntect = { version = "4", default-features = false, features = ["default-fancy"] }
url = "2"
