[package]
name = "floretta"
version = "0.1.0"
edition = "2021"
publish = false

[dependencies]
anyhow = "=1.0.104"
clap = { version = "=4.6.7", features = ["derive"] }
hashbrown = "=0.15.5"
itertools = "=0.14.0"
termcolor = "=1.4.1"
thiserror = "=2.0.21"
wasm-encoder = { version = "=0.228.0", features = ["wasmparser"] }
wasmparser = "=0.228.0"
wasmprinter = "=0.228.0"
wasmtime = { version = "=31.0.0", default-features = false, features = ["cranelift", "runtime", "std"] }
wat = "=1.262.0"
