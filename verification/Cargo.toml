[package]
name = "pwdv"
version = "0.1.0"
edition = "2021"
publish = false

[dependencies]
argon2 = { version = "=0.5.3", features = ["zeroize"] }
chacha20poly1305 = "=0.10.1"
rand = "=0.8.8"
zeroize = { version = "=1.9.1", features = ["derive"] }
serde = { version = "=1.0.229", features = ["derive"] }
serde_json = "=1.0.154"
thiserror = "=1.0.69"
clap = { version = "=4.6.7", features = ["derive"] }
rpassword = "=7.5.4"
eframe = { version = "0.36", default-features = false, features = ["default_fonts", "glow", "wayland", "x11"] }
arboard = { version = "3.6", features = ["wayland-data-control"] }
