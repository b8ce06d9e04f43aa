[package]
name = "typing_test"
version = "0.1.0"
edition = "2021"
publish = false

[dependencies]
rand = "0.8"
crossterm = "0.25"
structopt = "0.3"
