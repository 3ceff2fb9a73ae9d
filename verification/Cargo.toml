[package]
name = "catmeow_os"
version = "0.1.0"
edition = "2021"
publish = false

[dependencies]
spin = "=0.12.3"
limine = "=0.5.0"
lazy_static = "=1.5.1"
tar-no-std = "=0.5.0"
x86_64 = { version = "=0.15.5", default-features = false, features = ["instructions"] }
bitfields = "=3.2.1"
flanterm = "=0.0.2"
