[package]
name = "url_record"
version = "0.1.0"
edition = "2021"
publish = false

[dependencies]
url = "=2.4.1"
pyo3 = "=0.23.5"
