[package]
name = "groth16_bridge"
version = "0.1.0"
edition = "2021"
publish = false

[dependencies]
ark-bn254 = "=0.6.0"
ark-circom = "=0.6.0"
ark-crypto-primitives = { version = "=0.6.0", features = ["snark"] }
ark-ec = "=0.6.0"
ark-ff = "=0.6.0"
ark-groth16 = "=0.6.0"
ark-relations = "=0.6.0"
ark-serialize = "=0.6.0"
ark-std = "=0.6.0"
libc = "=0.2.190"

[dev-dependencies]
num-bigint = "=0.4.8"
num-traits = "=0.2.19"
