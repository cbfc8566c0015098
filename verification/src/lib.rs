//! Verified bridge between raw call data and a fixed set of cryptographic
//! operations: an algebraic hash, twisted Edwards point arithmetic and
//! zero-knowledge proof verification.

pub mod abi;
pub mod anemoi;
pub mod ed_on_bn254;
pub mod error;
pub mod field;
pub mod plonk;
pub mod utils;
pub mod word;
