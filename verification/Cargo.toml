[package]
name = "correspondence_arcs"
version = "0.1.0"
edition = "2021"
publish = false

[dependencies]
rand = "=0.8.8"
itertools = "=0.13.0"
