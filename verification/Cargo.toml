[package]
name = "dvs"
version = "0.1.0"
edition = "2021"
publish = false

[dependencies]
clap = "*"
csv = "*"
num_cpus = "*"
opencv = "*"
threadpool = "*"
