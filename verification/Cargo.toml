[package]
name = "csv_repair"
version = "0.1.0"
edition = "2021"
publish = false

[dependencies]
encoding_rs = "=0.8.42"
csv = "=1.4.0"
walkdir = "=2.5.0"
tracing = "=0.1.44"
tracing-subscriber = "=0.3.23"
rustler = "=0.37.4"
