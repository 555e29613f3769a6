[package]
name = "xactor"
version = "0.7.11"
edition = "2021"
publish = false

[dependencies]
anyhow = "1"
async-std = "1"
async-trait = "0.1"
dyn-clone = "1"
fnv = "1"
futures = "0.3"
once_cell = "1"
slab = "0.4"
