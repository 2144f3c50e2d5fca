[package]
name = "ab_lisp"
version = "0.1.0"
edition = "2021"
publish = false

[dependencies]
enquote = "1"
rustc_apfloat = "0.2"
const_soft_float = "0.1"
ariadne = "0.1"
logos = "0.12"
