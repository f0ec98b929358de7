[package]
name = "plang_rust"
version = "0.1.0"
edition = "2021"
publish = false

[dependencies]
cfgrammar = "*"
lrlex = "*"
lrpar = "*"
lrtable = "*"
rustc_apfloat = "*"
