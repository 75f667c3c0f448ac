[package]
name = "omarchy_chess"
version = "0.2.0"
edition = "2021"
publish = false

[dependencies]
shakmaty = "0.27"
pgn-reader = "0.26"
toml = "0.8"
serde = { version = "1", features = ["derive"] }
serde_json = "1"
tempfile = "3"
fs2 = "0.4"
rustix = { version = "0.38", features = ["fs"] }
