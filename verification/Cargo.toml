[package]
name = "ggsql_ext_rs"
version = "0.1.0"
edition = "2021"
publish = false

[dependencies]
ggsql = { version = "=0.4.1", default-features = false, features = ["vegalite"] }
arrow = { version = "=58.4.1", default-features = false, features = ["ffi"] }
once_cell = "=1.21.4"
open = "=5.4.5"
tiny_http = "=0.12.0"
uuid = { version = "=1.29.0", features = ["v4"] }
getrandom = "=0.4.3"
