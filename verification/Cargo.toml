[package]
name = "metadata_resolve"
version = "0.1.0"
edition = "2021"
publish = false

[dependencies]
indexmap = "2"
nonempty = "0.10"
