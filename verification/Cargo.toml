[package]
name = "voxt"
version = "0.1.0"
edition = "2021"
publish = false

[dependencies]
num-traits = "0.2"
flume = "0.11"
