[package]
name = "directory_pickers"
version = "0.1.0"
edition = "2021"
publish = false

[dependencies]
dirs = "4.0"
ignore = "0.4.22"
log = "0.4.16"
shellexpand = "2.1.0"
smol = "2.0"

[dev-dependencies]
ordered-float = "2.1.1"
