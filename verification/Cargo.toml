[package]
name = "oim"
version = "0.1.0"
edition = "2021"
publish = false

[dependencies]
semver = "1"
tokio = { version = "1", default-features = false, features = ["sync"] }
reqwest = { version = "0.12", default-features = false, features = ["blocking", "json"] }
serde = { version = "1", features = ["derive"] }
flate2 = "1"
tar = "0.4"
zip = { version = "2", default-features = false, features = ["deflate"] }
