[package]
name = "loginitems"
version = "0.1.0"
edition = "2021"

[dependencies]
urlencoding = "*"
clap = "2"
shellwords = "*"
core-foundation = "*"
core-services = "*"
