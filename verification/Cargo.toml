[package]
name = "corekit"
version = "0.1.0"
edition = "2021"
publish = false

[dependencies]
actix-rt = "2"
actix-web = { version = "4", default-features = false, features = ["macros"] }
bracket-lib = { version = "0.8", default-features = false, features = ["crossterm"] }
