[package]
name = "incubator_core"
version = "0.1.0"
edition = "2021"
publish = false

[dependencies]
chrono = "0.4"
rusqlite = { version = "*", features = ["bundled", "chrono"] }
serde = { version = "1", features = ["derive"] }
serde_json = "1"
confy = "*"
eframe = { version = "*", default-features = false, features = ["glow"] }
egui = "*"
