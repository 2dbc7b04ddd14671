[package]
name = "catnip_vm_core"
version = "0.1.0"
edition = "2021"
publish = false

[dependencies]
indexmap = "2"
rug = "1"
pyo3 = "*"
