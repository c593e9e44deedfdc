[package]
name = "scll"
version = "0.1.0"
edition = "2021"
publish = false

[dependencies]
aes = "0.8"
cbc = "0.1"
cmac = "0.7"
critical-section = { version = "1", features = ["std"] }
des = "0.8"
heapless = "0.8"
miniz_oxide = { version = "0.8", default-features = false }
pcsc = "2"
rand_core = "0.6"
thiserror = "2"
zeroize = "1"
