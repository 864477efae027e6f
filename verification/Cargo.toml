[package]
name = "philomena"
version = "0.3.0"
edition = "2021"
publish = false

[dependencies]
base64 = "*"
comrak = { version = "*", default-features = false }
http = "*"
once_cell = "*"
regex = "*"
ring = "*"
rustler = "*"
url = "*"
zip = { version = "*", default-features = false, features = ["deflate"] }
