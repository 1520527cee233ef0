[package]
name = "hlc_enrich"
version = "0.1.0"
edition = "2021"
publish = false

[dependencies]
hybrid-clocks = "*"
flate2 = "1"
clap = "2"
