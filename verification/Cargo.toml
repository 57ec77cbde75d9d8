[package]
name = "bench_nord_servers"
version = "0.1.0"
edition = "2021"
publish = false

[dependencies]
async-std = "*"
chrono = "*"
ctrlc = "*"
dns-lookup = "*"
public-ip = "*"
