[package]
name = "luma"
version = "0.1.0"
edition = "2021"
publish = false

[dependencies]
owo-colors = "4"
annotate-snippets = "0.12"
thiserror = "2"
