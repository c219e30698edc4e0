[package]
name = "egglog_program"
version = "0.1.0"
edition = "2021"
publish = false

[dependencies]
egglog = "*"
frunk = "*"
