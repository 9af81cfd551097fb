[package]
name = "loginrs"
version = "0.1.0"
edition = "2021"
publish = false

[dependencies]
regex = "1"
libc = "0.2"
nix = "*"
pam-sys = "0.5"
crossterm = "*"
