[package]
name = "instanttee"
version = "0.1.0"
edition = "2021"
publish = false

[dependencies]
getopts = "0.2"
hurdles = "*"
nix = "0.26"
rayon = "1"
