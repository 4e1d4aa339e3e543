[package]
name = "cvkg_components"
version = "0.1.0"
edition = "2021"
publish = false

[dependencies]
arboard = "3"
