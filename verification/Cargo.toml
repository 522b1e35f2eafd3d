[package]
name = "rs_pwsafe"
version = "0.1.0"
edition = "2021"
publish = false

[dependencies]
lsx = "*"
sha2 = "*"
hmac = "*"
uuid = "*"
