[package]
name = "rental_ledger"
version = "0.1.0"
edition = "2021"
publish = false

[dependencies]
chrono = "=0.4.45"
eframe = { version = "0.27", default-features = false, features = ["glow"] }
nfd = "0.0.4"
