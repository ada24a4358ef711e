[package]
name = "lurge"
version = "0.1.0"
edition = "2021"
publish = false

[dependencies]
libproc = "=0.14.11"
psutil = "=3.3.0"
nix = { version = "=0.31.3", features = ["signal"] }
libc = "=0.2.190"
serde = "=1.0.229"
serde_json = "*"
dirs = "=7.0.0"
