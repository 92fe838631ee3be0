[package]
name = "sparreal"
version = "0.1.0"
edition = "2021"
publish = false

[dependencies]
heapless = "=0.8.0"
num-align = "=0.1.0"
anyhow = { version = "=1.0.104", default-features = false }
thiserror = "=2.0.21"
uefi-raw = "=0.17.0"
rdif-base = "=0.9.1"
clap = { version = "=4.6.7", features = ["derive"] }
arrayvec = { version = "0.7", default-features = false }
fdt-raw = "*"
