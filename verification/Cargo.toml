[package]
name = "vtable_detect"
version = "0.1.0"
edition = "2021"
publish = false

[dependencies]
anyhow = "1"
capstone = "*"
object = { version = "*", default-features = false, features = ["read", "std"] }
