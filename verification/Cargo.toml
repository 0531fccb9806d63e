[package]
name = "package_family_name"
version = "0.1.0"
edition = "2021"
publish = false

[dependencies]
sha2 = "*"
serde = "*"

[dev-dependencies]
foldhash = "*"
fast32 = "*"
