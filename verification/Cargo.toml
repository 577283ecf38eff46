[package]
name = "tasklist"
version = "0.1.0"
edition = "2021"
publish = false

[dependencies]
clap = "3.0"
nanoid = "0.4"
rusqlite = "0.27"
