[package]
name = "adi2edi"
version = "0.1.0"
edition = "2021"
publish = false

[dependencies]
clap = { version = "4", features = ["derive"] }
lazy_static = "1"
pest = "2"
pest_derive = "2"
regex = "1"
strip_bom = "*"
