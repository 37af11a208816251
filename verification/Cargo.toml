[package]
name = "wavrec"
version = "0.1.0"
edition = "2021"
publish = false

[dependencies]
cpal = "*"
dialoguer = "*"

[dev-dependencies]
hound = "*"
