[package]
name = "import_glob_array"
version = "0.1.0"
edition = "2021"
publish = false

[dependencies]
is-glob = "*"
glob = "=0.3.4"
