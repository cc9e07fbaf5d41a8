[package]
name = "sebastian"
version = "0.1.0"
edition = "2021"
publish = false

[dependencies]
indexmap = "2"
serde_json = "1"
ttf-parser = "*"
resvg = "*"
core-math = "*"
elkrs = "*"
