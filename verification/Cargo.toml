[package]
name = "foldr"
version = "0.1.0"
edition = "2021"
publish = false

[dependencies]
zip = "*"
sha2 = "*"
serde = { version = "*", features = ["derive"] }
serde_json = "*"
clap = { version = "*", features = ["derive"] }
inquire = "*"
indicatif = "*"
ptree = "*"
bytesize = "*"
shellexpand = "*"
walkdir = "*"
reqwest = { version = "*", default-features = false, features = ["blocking"] }
