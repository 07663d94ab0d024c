[package]
name = "sonr_extras"
version = "0.1.0"
edition = "2021"
publish = false

[dependencies]
bytes = "=1.12.1"
num_cpus = "=1.17.0"
