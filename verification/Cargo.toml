[package]
name = "par_lang"
version = "0.1.0"
edition = "2021"
publish = false

[dependencies]
arcstr = { version = "1", features = ["substr"] }
bytes = "1"
miette = { version = "7", features = ["fancy"] }
num-bigint = "0.4"
num-integer = "0.1"
num-traits = "0.2"
unescaper = "0.1"
winnow = "0.7"
