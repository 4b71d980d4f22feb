[package]
name = "r1cs_circuits"
version = "0.1.0"
edition = "2021"
publish = false

[dependencies]
bellman = "=0.14.0"
bls12_381 = "=0.8.0"
ff = "=0.13.1"
rand = "=0.8.8"
