[package]
name = "timescale_vector"
version = "0.1.0"
edition = "2021"
publish = false

[dependencies]
ndarray = "0.15"
reductive = { version = "0.9", default-features = false }
rkyv = { version = "0.7", features = ["validation"] }
pgrx = "0.11"
