[package]
name = "rodio"
version = "0.1.0"
edition = "2021"
publish = false

[dependencies]
rubato = "=3.0.0"
audioadapter-buffers = "=3.0.0"
symphonia = "=0.6.1"
dasp_sample = "=0.11.0"
num-rational = "=0.4.2"
thiserror = "=2.0.21"
atomic_float = "=1.1.0"
tracing = "=0.1.44"
