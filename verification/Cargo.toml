[package]
name = "bowl"
version = "0.1.0"
edition = "2021"
publish = false

[dependencies]
nix = "0.26"
capctl = "*"
cgroups-rs = "*"
rlimit = "*"
syscallz = "*"
random_word = { version = "*", features = ["en"] }
clap = { version = "*", features = ["derive"] }
simplelog = "*"
log = "*"
