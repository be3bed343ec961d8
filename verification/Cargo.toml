[package]
name = "iron"
version = "0.1.0"
edition = "2021"
publish = false

[dependencies]
error = "0.1"
hyper = "0.10"
modifier = "0.1"
