[package]
name = "android_log_decrypt"
version = "0.1.0"
edition = "2021"
publish = false

[dependencies]
aes = "*"
cbc = "*"
hmac = "*"
sha2 = "*"
hex = "*"
log = "*"
env_logger = "*"
rpassword = "*"
clap = { version = "*", features = ["derive"] }
clap-stdin = "*"
