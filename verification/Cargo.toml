[package]
name = "picoref"
version = "0.1.0"
edition = "2021"
publish = false

[dependencies]
anyhow = "1"
biblatex = "*"
clap = { version = "4", features = ["derive"] }
deunicode = "1"
indicatif = "*"
itertools = "*"
serde = { version = "1", features = ["derive"] }
serde_json = "1"
toml = "*"
ureq = "2"
