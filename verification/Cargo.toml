[package]
name = "wakfu_png"
version = "0.1.0"
edition = "2021"
publish = false

[dependencies]
anyhow = "1"
byte = "0.2"
bytebuffer = "2"
glam = "0.24"
image = { version = "0.24", default-features = false, features = ["png"] }
imageproc = { version = "0.23", default-features = false }
itertools = "0.10"
num-traits = "0.2"
pico-args = "0.5"
zip = { version = "0.6", default-features = false, features = ["deflate"] }
