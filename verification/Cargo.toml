[package]
name = "tracker_engine"
version = "0.1.0"
edition = "2021"
publish = false

[dependencies]
rtrb = "*"
triple_buffer = "*"
dasp = "*"
