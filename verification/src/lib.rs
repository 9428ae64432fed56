//! Chain-key EVM signing library: public-key normalization, Ethereum address
//! derivation, legacy (EIP-155) transaction encoding, and recovery-id
//! resolution for threshold-ECDSA signatures that carry no recovery bit.

pub mod abi;
pub mod address;
pub mod bytesops;
pub mod config;
pub mod digest;
pub mod errors;
pub mod hexstr;
pub mod keys;
pub mod proofdata;
pub mod recovery;
pub mod rlp;
pub mod rpc;
pub mod signer;
pub mod tx;
pub mod u256;
