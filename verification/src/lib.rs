//! Verified core of a device-attestation system and a threshold-signing
//! toolkit over the BLS12-381 scalar field.

pub mod field;
pub mod poly;
pub mod interpolation;
pub mod triple;
pub mod codec;
pub mod keys;
pub mod poseidon_constants;
pub mod device;
pub mod records;
pub mod commitment;
