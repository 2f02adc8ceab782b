//! Fixed-capacity storage of single-bit flags.

use vstd::prelude::*;
use bitarray::BitArray;
use bitarray::typenum::U1024;

verus! {

/// Number of bits that every storage holds.
pub const CAPACITY: u64 = 1024;

/// A densely packed, fixed-length sequence of bits, all clear when created.
///
/// Its contents are modelled by `bits_of`; the bits themselves live in a
/// `bitarray::BitArray` of `CAPACITY` bits.
#[verifier::external_body]
pub struct BitStorage {
    bits: BitArray<u32, U1024>,
}

/// The flags held by a storage, in index order.
pub uninterp spec fn bits_of(s: BitStorage) -> Seq<bool>;

impl View for BitStorage {
    type V = Seq<bool>;

    open spec fn view(&self) -> Seq<bool> {
        bits_of(*self)
    }
}

impl BitStorage {
    /// Relies on `BitArray::new`, which builds the array from `Default`: every
    /// block zero, so `CAPACITY` clear bits.
    #[verifier::external_body]
    pub fn new() -> (r: BitStorage)
        ensures
            bits_of(r) == Seq::new(CAPACITY as nat, |i: int| false),
    {
        BitStorage { bits: BitArray::new() }
    }

    /// Relies on `BitArray::len`, the number of bits fixed by the array's type.
    #[verifier::external_body]
    pub fn size(&self) -> (r: u64)
        ensures
            r as nat == bits_of(*self).len(),
    {
        BitArray::<u32, U1024>::len() as u64
    }

    /// Relies on `BitArray::get`: the bit at `index`, or `None` past the end.
    #[verifier::external_body]
    pub fn get(&self, index: usize) -> (r: Option<bool>)
        ensures
            index < bits_of(*self).len() ==> r == Some(bits_of(*self)[index as int]),
            index >= bits_of(*self).len() ==> r is None,
    {
        self.bits.get(index)
    }

    /// Relies on `BitArray::set`, which writes one bit and panics past the end.
    #[verifier::external_body]
    pub fn set(&mut self, index: usize, value: bool)
        requires
            index < bits_of(*old(self)).len(),
        ensures
            bits_of(*final(self)) == bits_of(*old(self)).update(index as int, value),
    {
        self.bits.set(index, value)
    }
}

} // verus!
