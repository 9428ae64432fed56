[package]
name = "evm_signer"
version = "0.1.0"
edition = "2021"
publish = false

[dependencies]
k256 = "=0.13.4"
sha3 = "=0.10.9"
sha2 = "=0.10.9"
hex = "=0.4.3"
ethabi = "=18.0.0"
primitive-types = "=0.12.2"
serde = "=1.0.229"
serde_json = "=1.0.151"
candid = "=0.10.37"
ic-cdk = "=0.15.2"
getrandom = { version = "=0.2.17", features = ["custom"] }

[dev-dependencies]
rlp = "=0.5.2"
