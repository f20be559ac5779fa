[package]
name = "gc_vm"
version = "0.1.0"
edition = "2021"
publish = false

[dependencies]
generational-arena = "0.2"
anyhow = "1"
thiserror = "1"
tracing = "0.1"
tracing-flame = "0.2"
tracing-subscriber = "0.3"
