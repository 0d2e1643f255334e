[package]
name = "leadlang"
version = "0.1.0"
edition = "2021"
publish = false

[dependencies]
tokio = { version = "*", features = ["rt-multi-thread", "macros", "sync", "time"] }
lealang_chalk_rs = "*"
chalk_rs = "*"
libloading = "*"
serde = { version = "*", features = ["derive"] }
serde_json = "*"
termcolor = "*"
inquire = "*"
dirs = "*"
indicatif = "*"
lazy_static = "*"
paste = "*"
phf = { version = "*", features = ["macros"] }
reqwest = { version = "0.12", default-features = false, features = ["json", "rustls-tls"] }
zip-extract = "*"
cursive = { version = "*", default-features = false, features = ["crossterm-backend"] }
cursive-syntect = "*"
syntect = "*"
