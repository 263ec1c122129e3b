[package]
name = "utxo_import"
version = "0.1.0"
edition = "2021"
publish = false

[dependencies]
clap = { version = "4", features = ["derive"] }
dotenvy = "0.15"
env_logger = "0.11"
kaspa-consensus-core = "=0.15.0"
lettre = "0.11"
log = "0.4"
tokio = { version = "1", features = ["macros", "rt-multi-thread"] }
wasm-bindgen = "=0.2.93"
