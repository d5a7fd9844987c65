[package]
name = "rubic"
version = "0.1.0"
edition = "2021"
publish = false

[dependencies]
base64 = "0.22"
hex = "0.4"
rocket = { version = "0.5", features = ["json"] }
sqlite = "*"
dotenv = "0.15"
home = "0.5"
once_cell = "1"
lazy_static = "1"
spmc = "0.3"

[dev-dependencies]
serial_test = "*"
