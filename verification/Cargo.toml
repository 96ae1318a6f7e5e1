[package]
name = "core_mx_life_bonding"
version = "0.1.0"
edition = "2021"
publish = false

[dependencies]
multiversx-sc = "*"
