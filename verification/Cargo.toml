[package]
name = "tricorder"
version = "0.10.0"
edition = "2021"
publish = false

[dependencies]
bet = "1.0"
clap = { version = "3.1", features = ["cargo"] }
file-mode = "0.1"
is_executable = "1.0"
logos = "0.12"
rayon = "1.5"
regex = "1.5"
serde = { version = "1.0", features = ["derive"] }
serde_derive = "1.0"
serde_json = "1.0"
shell-words = "1.1"
ssh2 = "0.9"
tinytemplate = "1.2"
toml = "0.5"
