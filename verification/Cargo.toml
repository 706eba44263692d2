[package]
name = "sixtyfps_eval"
version = "0.1.0"
edition = "2021"
publish = false

[dependencies]
sixtyfps-corelib = { version = "=0.1.5", features = ["rtti"] }
sixtyfps-compilerlib = "=0.1.6"
vtable = "=0.1.12"
rustc_apfloat = "=0.2.3"
