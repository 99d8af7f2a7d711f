[package]
name = "tcp_rust"
version = "0.1.0"
edition = "2021"
publish = false

[dependencies]
etherparse = "0.13"
nix = "0.26"
tun-tap = "0.1"
