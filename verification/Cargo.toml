[package]
name = "mopro"
version = "0.1.0"
edition = "2021"
publish = false

[dependencies]
plonky2 = "*"
plonky2_u32 = "*"
num-bigint = "*"
thiserror = "*"
