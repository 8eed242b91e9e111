[package]
name = "icy_draw"
version = "0.1.0"
edition = "2021"
publish = false

[dependencies]
directories = "*"
serde = { version = "1", features = ["derive"] }
serde_json = "1"
clap = { version = "4", features = ["derive"] }
egui = { version = "*", default-features = false, features = ["serde"] }
