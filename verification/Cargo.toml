[package]
name = "time_formatting"
version = "0.1.0"
edition = "2021"
publish = false

[dependencies]
deranged = "*"
num-conv = "*"
