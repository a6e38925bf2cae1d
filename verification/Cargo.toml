[package]
name = "maya"
version = "0.1.0"
edition = "2021"
publish = false

[dependencies]
anyhow = "*"
clap = { version = "*", features = ["derive"] }
ffmpeg-sidecar = "*"
ignore = "*"
image = "*"
indicatif = "*"
oxipng = "*"
regex = "*"
swc_common = "*"
swc_ecma_ast = "*"
swc_ecma_codegen = "*"
swc_ecma_parser = "*"
swc_ecma_visit = "*"
walkdir = "*"
zip = "*"
