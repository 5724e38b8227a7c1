[package]
name = "crafting_interpreter"
version = "0.1.0"
edition = "2021"

[dependencies]
rustc_apfloat = "*"
termcolor = "=1.4.1"
