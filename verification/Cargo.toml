[package]
name = "big_text"
version = "0.1.0"
edition = "2021"
publish = false

[dependencies]
anyhow = "1"
clap = "3"
flate2 = "1"
walkdir = "2"
