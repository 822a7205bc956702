[package]
name = "drake"
version = "0.1.0"
edition = "2021"
publish = false

[dependencies]
hashbrown = "=0.17.1"
codespan-reporting = "=0.13.1"
somen-language = "=0.1.0"
