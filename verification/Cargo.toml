[package]
name = "hydra_dqea"
version = "0.1.0"
edition = "2021"
publish = false

[dependencies]
ark-bls12-381 = "=0.3.0"
ark-ff = "=0.3.0"
ark-ec = "=0.3.0"
ark-serialize = "=0.3.0"
ark-std = "=0.3.0"
ark-groth16 = "=0.3.0"
k256 = { version = "=0.13.4", features = ["ecdsa"] }
ecdsa = "=0.16.9"
num-bigint = "=0.4.8"
rand = "=0.10.3"
rand_core = { version = "=0.6.4", features = ["getrandom"] }
rayon = "=1.12.0"
sha2 = "=0.10.9"
arkworks-native-gadgets = "=1.2.0"
arkworks-utils = { version = "=1.0.1", features = ["std", "poseidon_bls381_x5_3"] }
