[package]
name = "logquery"
version = "0.1.0"
edition = "2021"
publish = false

[dependencies]
regex = "1"
nom = "4"
nom_locate = "0.3"
lazy_static = "1"
