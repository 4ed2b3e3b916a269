[package]
name = "elev"
version = "0.1.0"
edition = "2021"
publish = false

[dependencies]
chrono = "*"
log = "*"
nix = { version = "*", features = ["user"] }
pam-client2 = "*"
rpassword = "*"
syslog = "*"
