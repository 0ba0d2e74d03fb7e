[package]
name = "composite_visitor"
version = "0.1.0"
edition = "2021"

[dependencies]
dyn_ord = "*"
