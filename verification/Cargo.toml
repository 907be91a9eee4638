[package]
name = "goudale"
version = "0.1.0"
edition = "2021"
publish = false

[dependencies]
rustc_apfloat = "*"
miette = "*"
thiserror = "*"
atty = "*"
anyhow = "*"
