[package]
name = "depcache"
version = "0.1.0"
edition = "2021"
publish = false

[dependencies]
sha1 = "0.10"
hex = "0.4"
anyhow = "1"
rayon = "1"
roxmltree = "*"
indicatif = "*"
