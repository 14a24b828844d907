[package]
name = "rustproof"
version = "0.1.0"
edition = "2021"
publish = false

[dependencies]
anyhow = "=1.0.104"
chacha20poly1305 = "=0.10.1"
eframe = { version = "0.33", default-features = false, features = ["default_fonts", "glow", "wayland", "x11"] }
env_logger = "=0.11.11"
pbkdf2 = "=0.12.2"
rand = "=0.8.8"
rfd = "=0.17.2"
sha2 = "=0.10.9"
zeroize = "=1.9.1"

[dev-dependencies]
cocoon = "=0.4.3"
