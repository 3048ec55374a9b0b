[package]
name = "auto_decompress"
version = "0.1.0"
edition = "2021"
publish = false

[dependencies]
camino = "=1.2.6"
cxx = "=1.0.205"
file_type = { version = "=0.8.11", features = ["pronom"] }
fs-err = "=3.3.2"
thiserror = "=2.0.21"
tracing = "=0.1.44"
