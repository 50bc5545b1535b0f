[package]
name = "math_lang"
version = "0.1.0"
edition = "2021"
publish = false

[dependencies]
clap = "=2.34.0"
faerie = "=0.16.0"
target-lexicon = "=0.11.2"
