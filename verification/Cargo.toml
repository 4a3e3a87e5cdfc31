[package]
name = "cmdrelay"
version = "0.1.0"
edition = "2021"
publish = false

[dependencies]
flate2 = "1"
mio = "0.6"
getopts = "0.2"
rustyline = "*"
