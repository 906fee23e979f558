//! Ethereum addresses from secp256k1 public keys.
//!
//! A public key, given in its SEC1 encoding, is decoded to a curve point;
//! the Keccak-256 digest of the point's coordinates ends in the 20-byte
//! address, which is written as `0x` and forty hexadecimal digits whose
//! letter case is a checksum.

pub mod address;
pub mod checksum;
pub mod hex;
pub mod keccak;
pub mod sec1;

pub use address::{derive_address, pubkey_bytes_to_address, DerivationError};
