[package]
name = "omg-idl-code-gen"
version = "0.1.0"
edition = "2021"
publish = false

[dependencies]
linked-hash-map = "*"
minijinja = "*"
pest = "*"
omg-idl-grammar = "*"
clap = { version = "*", features = ["cargo"] }
thiserror = "*"
