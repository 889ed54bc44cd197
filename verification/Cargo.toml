[package]
name = "gstudy"
version = "0.1.0"
edition = "2021"
publish = false

[dependencies]
fxhash = "0.2"
rand = "0.8"
num_cpus = "1"
petgraph = "0.6"
unicode-ident = "1"
nom = "7"
toml = "0.8"
serde = { version = "1", features = ["derive"] }
