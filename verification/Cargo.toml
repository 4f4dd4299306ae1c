[package]
name = "spotlight"
version = "0.1.0"
edition = "2021"
publish = false

[dependencies]
regex = "1"
fuzzy-matcher = "0.3"
serde = { version = "1", features = ["derive"] }
serde_json = "1"
toml = "*"
chrono = "*"
chrono-tz = "*"
dirs = "*"
evalexpr = "*"
rusqlite = { version = "*", features = ["bundled"] }
reqwest = { version = "*", default-features = false, features = ["blocking", "json", "rustls-tls"] }
mime_guess = "*"
walkdir = "*"
notify = "*"
arboard = "*"
image = { version = "*", default-features = false, features = ["png"] }
rayon = "*"
