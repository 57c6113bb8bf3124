[package]
name = "casperflow_contracts"
version = "0.1.0"
edition = "2021"
publish = false

[dependencies]
odra = "=2.9.1"
odra-core = "=2.9.1"
dotenv = "=0.15.0"
odra-casper-livenet-env = "=2.9.1"
