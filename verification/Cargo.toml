[package]
name = "pokebin"
version = "0.1.0"
edition = "2021"
publish = false

[dependencies]
regex = "*"
rand = "*"
serde_json = "*"
blowfish = "*"
hex = "*"
