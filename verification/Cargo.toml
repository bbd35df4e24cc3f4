[package]
name = "fuzz_core"
version = "0.1.0"
edition = "2021"
publish = false

[dependencies]
arbitrary = "1"
rand = "0.8"
ad_trait = "*"
tch = "*"
evalexpr-jit = "*"
libfuzzer-sys = "0.4"
