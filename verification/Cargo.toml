[package]
name = "screenpipe_core"
version = "0.1.0"
edition = "2021"
publish = false

[dependencies]
anyhow = "=1.0.104"
byteorder = "=1.5.0"
candle-core = "=0.6.0"
candle-nn = "=0.6.0"
candle-transformers = "=0.6.0"
chrono = { version = "=0.4.45", default-features = false, features = ["clock", "std"] }
env_logger = "=0.10.2"
# candle-core 0.6 draws half-precision numbers through rand 0.8, which half
# supports up to 2.4; nothing else here names half.
half = "=2.4.1"
hf-hub = "=0.3.2"
image = { version = "=0.25.10", default-features = false }
log = "=0.4.34"
rand = "=0.8.8"
rubato = "=0.15.0"
serde_json = "=1.0.154"
tokenizers = { version = "=0.19.1", default-features = false, features = ["unstable_wasm"] }
tokio = { version = "=1.54.1", features = ["rt", "rt-multi-thread", "time"] }
