[package]
name = "zamm_yang"
version = "0.1.0"
edition = "2021"
publish = false

[dependencies]
heck = "0.3"
itertools = "0.10"
pulldown-cmark = "0.8"
yaml-rust = "0.4"
toml = "0.5"
clap = "2"
colored = "2"
path_abs = "0.5"
indoc = "1"
zamm_yin = "*"
