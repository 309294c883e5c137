[package]
name = "envyc"
version = "0.1.0"
edition = "2021"
publish = false

[dependencies]
codespan-reporting = "0.11"
lasso = "*"
bimap = "*"
annotate-snippets = "0.9"
console = "*"
crossterm = "0.19"
dark-vm = "*"
