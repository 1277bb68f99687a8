[package]
name = "fli"
version = "0.1.0"
edition = "2021"

[dependencies]
colored = "2"
once_cell = "1"
thiserror = "1"
