[package]
name = "classpath_surfer"
version = "0.1.0"
edition = "2021"
publish = false

[dependencies]
cafebabe = "*"
sha2 = "0.10"
hex = "0.4"
anyhow = "1"
serde = { version = "1", features = ["derive"] }
serde_json = "1"
clap = { version = "4", features = ["derive"] }
zip = { version = "*", default-features = false, features = ["deflate"] }
tantivy = "*"
ratatui = "*"
crossterm = "*"
syntect = { version = "5", default-features = false, features = ["default-fancy"] }
ctrlc = "3"
rayon = "1"
tempfile = "3"
prost = "*"
