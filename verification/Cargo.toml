[package]
name = "vudo_vm"
version = "0.1.0"
edition = "2021"
publish = false

[dependencies]
sha2 = "=0.10.9"
ed25519-dalek = "=2.2.0"
getrandom = "=0.2.17"
serde = { version = "=1.0.229", features = ["derive"] }
thiserror = "=1.0.69"
wasmtime = { version = "=40.0.4", default-features = false, features = ["cranelift", "runtime", "std"] }
