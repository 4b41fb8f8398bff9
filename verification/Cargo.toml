[package]
name = "glacier"
version = "0.1.0"
edition = "2021"
publish = false

[dependencies]
clap = { version = "4", features = ["derive"] }
colored = "*"
dialoguer = "*"
fs_extra = "1"
futures-util = "0.3"
indicatif = "*"
libc = "0.2"
regex = "1"
tokio = { version = "1", features = ["full"] }
zbus = { version = "5", default-features = false, features = ["tokio"] }
