//! The filter's hash family: FNV-1a, and a 128-bit MurmurHash3 digest folded
//! down to 64 bits.

use vstd::prelude::*;
use vstd::string::StringSliceAdditionalSpecFns;
use std::hash::Hasher;
use std::io::Cursor;
use fnv::FnvHasher;

verus! {

/// Starting state of 64-bit FNV-1a.
pub const FNV_OFFSET_BASIS: u64 = 0xcbf29ce484222325;

/// The 64-bit FNV prime.
pub const FNV_PRIME: u64 = 0x100000001b3;

/// One FNV-1a round: xor the byte in, then multiply by the prime modulo 2^64.
pub open spec fn fnv_step(acc: u64, b: u8) -> u64 {
    (((acc ^ (b as u64)) as nat * FNV_PRIME as nat) % 0x1_0000_0000_0000_0000nat) as u64
}

/// FNV-1a rounds over `s` in order, starting from `acc`.
pub open spec fn fnv_fold(acc: u64, s: Seq<u8>) -> u64
    decreases s.len(),
{
    if s.len() == 0 {
        acc
    } else {
        fnv_step(fnv_fold(acc, s.drop_last()), s.last())
    }
}

/// The standard 64-bit FNV-1a hash of `s`.
pub open spec fn fnv1a(s: Seq<u8>) -> u64 {
    fnv_fold(FNV_OFFSET_BASIS, s)
}

/// The 16 output bytes of MurmurHash3 x64 128 with seed 0 over `s`.
pub uninterp spec fn murmur3_x64_128_of(s: Seq<u8>) -> Seq<u8>;

/// The murmur digest of `s` folded into 64 bits.
pub open spec fn murmur3_mixed(s: Seq<u8>) -> u64 {
    fnv_fold(0, murmur3_x64_128_of(s))
}

/// Relies on `fnv::FnvHasher`: the default state is the offset basis, `write`
/// applies one FNV-1a round per byte, and `finish` returns the state.
#[verifier::external_body]
fn fnv1a_bytes(bytes: &[u8]) -> (r: u64)
    ensures
        r == fnv1a(bytes@),
{
    let mut hasher = FnvHasher::default();
    hasher.write(bytes);
    hasher.finish()
}

/// Relies on `murmur3::murmur3_x64_128` with seed 0, which writes its 16-byte
/// digest into the buffer. It counts the bytes read in a `u32`, hence the bound.
#[verifier::external_body]
fn murmur3_digest(bytes: &[u8]) -> (r: [u8; 16])
    requires
        bytes@.len() <= u32::MAX,
    ensures
        r@ == murmur3_x64_128_of(bytes@),
{
    let mut out: [u8; 16] = [0; 16];
    murmur3::murmur3_x64_128(&mut Cursor::new(bytes), 0, &mut out);
    out
}

/// Folds a digest into 64 bits with FNV-1a rounds, starting from 0.
pub fn fold_digest(digest: &[u8]) -> (r: u64)
    ensures
        r == fnv_fold(0, digest@),
{
    let mut hash: u64 = 0;
    let mut i: usize = 0;
    while i < digest.len()
        invariant
            0 <= i <= digest@.len(),
            hash == fnv_fold(0, digest@.take(i as int)),
        decreases digest@.len() - i,
    {
        assert(digest@.take(i as int + 1).drop_last() =~= digest@.take(i as int));
        hash = (hash ^ (digest[i] as u64)).wrapping_mul(FNV_PRIME);
        i = i + 1;
    }
    assert(digest@.take(i as int) =~= digest@);
    hash
}

/// FNV-1a over the UTF-8 bytes of `key`.
pub fn hash_fnv1a(key: &str) -> (r: u64)
    ensures
        r == fnv1a(key.spec_bytes()),
{
    fnv1a_bytes(key.as_bytes())
}

/// MurmurHash3 x64 128 of the UTF-8 bytes of `key`, folded into 64 bits.
pub fn hash_murmur3(key: &str) -> (r: u64)
    requires
        key.spec_bytes().len() <= u32::MAX,
    ensures
        r == murmur3_mixed(key.spec_bytes()),
{
    let digest = murmur3_digest(key.as_bytes());
    fold_digest(&digest)
}

/// A member of the filter's hash family.
#[derive(Clone, Copy, Debug, PartialEq, Eq, Structural)]
pub enum HashFn {
    Fnv1a,
    Murmur3,
}

impl HashFn {
    /// What the function gives for the key bytes `s`.
    pub open spec fn spec_apply(self, s: Seq<u8>) -> u64 {
        match self {
            HashFn::Fnv1a => fnv1a(s),
            HashFn::Murmur3 => murmur3_mixed(s),
        }
    }

    /// Hashes `key` with this function.
    pub fn apply(self, key: &str) -> (r: u64)
        requires
            key.spec_bytes().len() <= u32::MAX,
        ensures
            r == self.spec_apply(key.spec_bytes()),
    {
        match self {
            HashFn::Fnv1a => hash_fnv1a(key),
            HashFn::Murmur3 => hash_murmur3(key),
        }
    }
}

} // verus!
