[package]
name = "git-credential-keepassxc"
version = "0.1.0"
edition = "2021"
publish = false

[dependencies]
aes-gcm = "*"
anyhow = "*"
base64 = "*"
clap = "*"
crypto_box = "*"
once_cell = "*"
prctl = "*"
rand = "*"
serde = { version = "*", features = ["derive"] }
serde_json = "*"
slog = "*"
slog-term = "*"
xdg = "*"
yubico_manager = "*"
