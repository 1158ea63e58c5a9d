[package]
name = "wordle"
version = "0.1.0"
edition = "2021"
publish = false

[dependencies]
argparse = "*"
closure = "*"
crossterm = "0.23"
dyn-fmt = "*"
itertools = "*"
regex = "*"
rust-embed = { version = "*", features = ["include-exclude"] }
textwrap = "*"
yaml-rust = "*"
