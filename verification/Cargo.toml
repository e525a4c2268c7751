[package]
name = "sized_data"
version = "0.1.0"
edition = "2021"
publish = false

[dependencies]
anchor-lang = "0.30.1"
sized_data_derive = "*"
