//! A Bloom filter over string keys: a fixed-size bit array and an ordered
//! family of two 64-bit hash functions.

pub mod bits;
pub mod hashing;
pub mod filter;
