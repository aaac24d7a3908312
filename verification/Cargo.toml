[package]
name = "qemount"
version = "0.1.0"
edition = "2021"
publish = false

[dependencies]
flate2 = "*"
bzip2 = "*"
zstd = "*"
lz4_flex = "*"
lzfse = "*"
lzma-rs = "*"
weezl = "*"
xz2 = "*"
regex = "*"
rmp-serde = "*"
serde = { version = "*", features = ["derive"] }
libc = "*"
