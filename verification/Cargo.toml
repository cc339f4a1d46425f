[package]
name = "statement_parser"
version = "0.1.0"
edition = "2021"
publish = false

[dependencies]
atty = "*"
env_logger = "*"
log = "*"
structopt = "*"
