[package]
name = "repostats"
version = "0.1.0"
edition = "2021"
publish = false

[dependencies]
git2 = "*"
magic = "*"
