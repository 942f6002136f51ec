[package]
name = "openhousepopulator"
version = "0.1.0"
edition = "2021"
publish = false

[dependencies]
rand = "0.8"
itertools = "0.12"
geo = "0.28"
geojson = "0.24"
osmpbfreader = "0.16"
serde = { version = "1", features = ["derive"] }
serde_json = "1"
clap = { version = "4", features = ["derive"] }
config = { version = "0.13", default-features = false, features = ["toml"] }

[dev-dependencies]
nom = "7"
