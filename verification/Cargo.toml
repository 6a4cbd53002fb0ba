[package]
name = "land"
version = "0.1.0"
edition = "2021"
publish = false

[dependencies]
solana-program = "=1.18.26"
borsh = "=0.10.4"
num-derive = "0.4"
num-traits = "0.2"
thiserror = "1"
arrayref = "0.3"
