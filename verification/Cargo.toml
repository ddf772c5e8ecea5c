[package]
name = "butterware"
version = "0.1.0"
edition = "2021"
publish = false

[dependencies]
embassy-time = { version = "*", features = ["std"] }
embassy-sync = { version = "*", features = ["std"] }
heapless = "*"
convert_case = "*"
futures = "*"
libm = "*"
palette = "*"
