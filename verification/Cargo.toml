[package]
name = "imagegen"
version = "0.1.0"
edition = "2021"
publish = false

[dependencies]
clap = { version = "*", features = ["derive"] }
colored = "*"
gif = "*"
image = "*"
serde = { version = "*", features = ["derive"] }
tinytemplate = "*"
toml = "*"
