[package]
name = "liusearch"
version = "0.1.0"
edition = "2021"
publish = false

[dependencies]
regex = "=1.13.1"
triple_accel = "=0.4.0"
rayon = "=1.12.0"
chrono = { version = "=0.4.45", default-features = false, features = ["std", "clock"] }
flate2 = "=1.1.10"
serde = { version = "=1.0.229", features = ["derive"] }
ureq = { version = "=2.12.1", features = ["json"] }
anyhow = "=1.0.104"
bzip2 = "=0.4.4"
clap = { version = "=4.6.7", features = ["derive"] }
rustc-hash = "=1.1.0"
num-format = "=0.4.4"
pgp = "0.10"
