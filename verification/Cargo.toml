[package]
name = "fastq_pair_filter"
version = "0.1.0"
edition = "2021"
publish = false

[dependencies]
env_logger = "*"
flate2 = "*"
log = "*"
structopt = "*"
