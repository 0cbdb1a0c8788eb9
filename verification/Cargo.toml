[package]
name = "reactive_rs2"
version = "0.1.0"
edition = "2021"
publish = false

[dependencies]
rand = "0.4"
time = "0.1"
