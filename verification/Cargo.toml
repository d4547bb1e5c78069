[package]
name = "install_wheel"
version = "0.1.0"
edition = "2021"
publish = false

[dependencies]
anstream = "0.6"
anyhow = "1"
clap = "4"
fs-err = "3"
itertools = "*"
nix = { version = "*", features = ["resource"] }
owo-colors = "4"
reflink-copy = "0.1"
rustc-hash = "2"
serde = { version = "1", features = ["derive"] }
tempfile = "3"
thiserror = "2"
toml_edit = "*"
tracing = "0.1"
uuid = { version = "1", features = ["v4"] }
walkdir = "2"
which = "*"
