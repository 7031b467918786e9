[package]
name = "minicbor"
version = "0.1.0"
edition = "2021"
publish = false

[dependencies]
half = "1"
