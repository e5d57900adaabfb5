[package]
name = "nc-broadcast"
version = "0.1.0"
edition = "2021"
publish = false

[dependencies]
clap = "3.2"
inotify = "0.10"
