[package]
name = "plot"
version = "0.1.0"
edition = "2021"
publish = false

[dependencies]
itertools = "0.7"
criterion-plot = "0.2"
criterion-stats = "0.2"
