[package]
name = "camp_registre"
version = "0.1.0"
edition = "2021"
publish = false

[dependencies]
chrono = "=0.4.45"
console = "=0.15.11"
dialoguer = "=0.11.0"
office = "=0.8.1"
rand = "=0.8.8"
regex = "=1.13.1"
rfd = { version = "=0.17.2", default-features = false, features = ["xdg-portal"] }
