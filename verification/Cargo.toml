[package]
name = "collisions_disallowed"
version = "0.1.0"
edition = "2021"
publish = false

[dependencies]
ggez = "0.5"
mint = "0.5"
rand = "0.7"
text_io = "0.1"
