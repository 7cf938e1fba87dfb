[package]
name = "mongolog"
version = "0.1.0"
edition = "2021"
publish = false

[dependencies]
chrono = "*"
bson = "*"
clap = "*"
encoding_rs = "*"
encoding_rs_io = "*"
indicatif = "*"
rayon = "*"
