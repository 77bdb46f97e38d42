[package]
name = "hella"
version = "0.1.0"
edition = "2021"
publish = false

[dependencies]
anstyle = "1"
clap = { version = "4", features = ["derive"] }
console = "*"
indicatif = "*"
inkwell = { version = "*", features = ["llvm21-1"] }
miette = { version = "*", features = ["fancy"] }
thiserror = "*"
