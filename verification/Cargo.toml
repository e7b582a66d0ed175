[package]
name = "waveplayer"
version = "0.1.0"
edition = "2021"
publish = false

[dependencies]
rfd = { version = "0.15", default-features = false, features = ["xdg-portal", "tokio"] }
rodio = { version = "0.20", default-features = false }
symphonia = { version = "0.5", features = ["all"] }
dirs = "5"
