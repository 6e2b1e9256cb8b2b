[package]
name = "md2html"
version = "0.1.0"
edition = "2021"
publish = false

[dependencies]
pulldown-cmark = "*"
clap = "*"
indicatif = "*"
