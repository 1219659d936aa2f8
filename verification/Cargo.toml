[package]
name = "signal_macro"
version = "0.1.0"
edition = "2021"
publish = false

[dependencies]
syn = { version = "2", features = ["full"] }
proc-macro2 = "1"
hound = "3"
libm = "0.1"
