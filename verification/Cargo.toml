[package]
name = "rotuli"
version = "0.1.0"
edition = "2021"
publish = false

[dependencies]
document_tree = "*"
glob = "0.3"
rst_parser = "*"
rst_renderer = "*"
serde = { version = "1", features = ["derive"] }
serde_yaml = "0.8"
structopt = "0.3"
tera = { version = "1", default-features = false }
