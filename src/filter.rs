//! The Bloom filter: a bit storage and an ordered hash family.

use vstd::prelude::*;
use vstd::string::StringSliceAdditionalSpecFns;
use crate::bits::BitStorage;
use crate::bits::CAPACITY;
use crate::hashing::HashFn;

verus! {

/// The hash family of every filter, in the order in which it is applied.
pub open spec fn hash_family() -> Seq<HashFn> {
    seq![HashFn::Fnv1a, HashFn::Murmur3]
}

/// The storage index that `h` gives for the key bytes `key` in `size` bits.
pub open spec fn slot(h: HashFn, key: Seq<u8>, size: u64) -> int
    recommends
        size > 0,
{
    (h.spec_apply(key) % size) as int
}

/// Whether `key` may be handed to the hash family.
pub open spec fn hashable(key: Seq<u8>) -> bool {
    key.len() <= u32::MAX
}

/// A probabilistic set of strings: never reports an added key as absent.
///
/// The capacity passed to `new` does not set the size: every filter has the
/// storage's fixed capacity of `CAPACITY` bits, which its false-positive rate
/// and the indices of its keys depend on.
pub struct BloomFilter {
    pub filter: BitStorage,
    pub size: u64,
    hash_funcs: Vec<HashFn>,
    total_flipped: i64,
}

/// What a filter holds, as a mathematical value.
pub struct FilterModel {
    /// The storage's bits, in index order.
    pub bits: Seq<bool>,
    /// The filter's size, by which hashes are reduced to indices.
    pub size: u64,
    /// The hash functions applied to every key, in order.
    pub hashes: Seq<HashFn>,
    /// How many bit writes `add` has made.
    pub flipped: int,
}

impl View for BloomFilter {
    type V = FilterModel;

    closed spec fn view(&self) -> FilterModel {
        FilterModel {
            bits: self.filter@,
            size: self.size,
            hashes: self.hash_funcs@,
            flipped: self.total_flipped as int,
        }
    }
}

impl FilterModel {
    /// The filter's invariant: the fixed hash family, and a size that is the
    /// storage's non-zero length and can index it.
    pub open spec fn wf(self) -> bool {
        &&& self.hashes == hash_family()
        &&& self.size > 0
        &&& self.size <= usize::MAX
        &&& self.bits.len() == self.size as nat
        &&& self.flipped >= 0
    }

    /// Whether every hash function's slot for `key` is set.
    pub open spec fn contains(self, key: Seq<u8>) -> bool {
        forall|i: int|
            0 <= i < self.hashes.len() ==> #[trigger] self.bits[slot(self.hashes[i], key, self.size)]
    }

    /// Whether `j` is the slot of `key` under one of the hash functions.
    pub open spec fn is_slot(self, key: Seq<u8>, j: int) -> bool {
        exists|i: int| 0 <= i < self.hashes.len() && slot(self.hashes[i], key, self.size) == j
    }

    /// `next` is `self` after adding `key`: each slot of `key` set, every other
    /// bit kept, and the counter raised by one per hash function.
    pub open spec fn adds(self, next: FilterModel, key: Seq<u8>) -> bool {
        &&& next.hashes == self.hashes
        &&& next.size == self.size
        &&& next.bits.len() == self.bits.len()
        &&& forall|j: int|
            0 <= j < self.bits.len() ==> #[trigger] next.bits[j] == (self.bits[j] || self.is_slot(
                key,
                j,
            ))
        &&& next.flipped == self.flipped + self.hashes.len()
    }
}

impl BloomFilter {
    /// An empty filter. `filter_size` is accepted but not used: the size is
    /// always the storage's fixed capacity.
    pub fn new(filter_size: u64) -> (r: BloomFilter)
        ensures
            r@.wf(),
            r@.size == CAPACITY,
            r@.bits == Seq::new(CAPACITY as nat, |i: int| false),
            r@.flipped == 0,
    {
        let mut hash_funcs: Vec<HashFn> = Vec::new();
        hash_funcs.push(HashFn::Fnv1a);
        hash_funcs.push(HashFn::Murmur3);
        let filter = BitStorage::new();
        let size = filter.size();
        let r = BloomFilter { filter, size, hash_funcs, total_flipped: 0 };
        assert(r@.hashes =~= hash_family());
        r
    }

    /// The number of bit writes made by `add` so far.
    pub fn total_flipped(&self) -> (r: i64)
        ensures
            r as int == self@.flipped,
    {
        self.total_flipped
    }

    /// The storage index of `s` under `hash_fn`: its hash modulo the size.
    pub fn calc_index(&self, s: &str, hash_fn: HashFn) -> (r: u64)
        requires
            self@.size > 0,
            hashable(s.spec_bytes()),
        ensures
            r as int == slot(hash_fn, s.spec_bytes(), self@.size),
            r < self@.size,
    {
        let hash = hash_fn.apply(s);
        hash % self.size
    }

    /// Whether `key` may have been added: true exactly when every hash
    /// function's slot for it is set.
    pub fn key_exists(&self, key: &str) -> (r: bool)
        requires
            self@.wf(),
            hashable(key.spec_bytes()),
        ensures
            r == self@.contains(key.spec_bytes()),
    {
        let mut all_true = true;
        let mut i: usize = 0;
        while i < self.hash_funcs.len()
            invariant
                self@.wf(),
                hashable(key.spec_bytes()),
                0 <= i <= self@.hashes.len(),
                all_true == (forall|k: int|
                    0 <= k < i ==> #[trigger] self@.bits[slot(
                        self@.hashes[k],
                        key.spec_bytes(),
                        self@.size,
                    )]),
            decreases self@.hashes.len() - i,
        {
            let idx = self.calc_index(key, self.hash_funcs[i]);
            let val = match self.filter.get(idx as usize) {
                Some(b) => b,
                None => false,
            };
            all_true = all_true && val;
            i = i + 1;
        }
        all_true
    }

    /// Adds `key`: sets each hash function's slot for it, and counts one bit
    /// write per hash function.
    pub fn add(&mut self, s: &str)
        requires
            old(self)@.wf(),
            hashable(s.spec_bytes()),
            old(self)@.flipped + hash_family().len() <= i64::MAX,
        ensures
            final(self)@.wf(),
            old(self)@.adds(final(self)@, s.spec_bytes()),
    {
        let ghost start = self@;
        let ghost key = s.spec_bytes();
        let mut i: usize = 0;
        while i < self.hash_funcs.len()
            invariant
                self@.wf(),
                start.wf(),
                hashable(key),
                key == s.spec_bytes(),
                0 <= i <= self@.hashes.len(),
                self@.hashes == start.hashes,
                self@.size == start.size,
                self@.flipped == start.flipped + i,
                start.flipped + hash_family().len() <= i64::MAX,
                forall|j: int|
                    0 <= j < start.bits.len() ==> #[trigger] self@.bits[j] == (start.bits[j]
                        || exists|k: int|
                        0 <= k < i && slot(start.hashes[k], key, start.size) == j),
            decreases self@.hashes.len() - i,
        {
            let ghost before = self@;
            let idx = self.calc_index(s, self.hash_funcs[i]);
            self.filter.set(idx as usize, true);
            self.total_flipped = self.total_flipped + 1;
            assert forall|j: int| 0 <= j < start.bits.len() implies #[trigger] self@.bits[j] == (
            start.bits[j] || exists|k: int|
                0 <= k < i + 1 && slot(start.hashes[k], key, start.size) == j) by {
                if j == idx as int {
                    assert(slot(start.hashes[i as int], key, start.size) == j);
                } else {
                    assert(self@.bits[j] == before.bits[j]);
                    if exists|k: int| 0 <= k < i + 1 && slot(start.hashes[k], key, start.size) == j {
                        let k = choose|k: int|
                            0 <= k < i + 1 && slot(start.hashes[k], key, start.size) == j;
                        assert(k < i);
                    }
                }
            }
            i = i + 1;
        }
    }
}

/// `states` is a run of `add` calls: `states[i + 1]` is `states[i]` after
/// adding `keys[i]`, starting from a well-formed filter.
pub open spec fn add_run(states: Seq<FilterModel>, keys: Seq<Seq<u8>>) -> bool {
    &&& states.len() == keys.len() + 1
    &&& states[0].wf()
    &&& forall|i: int| 0 <= i < keys.len() ==> #[trigger] states[i].adds(states[i + 1], keys[i])
}

/// Adding a key to a well-formed filter keeps it well-formed.
pub proof fn lemma_add_keeps_wf(before: FilterModel, after: FilterModel, key: Seq<u8>)
    requires
        before.wf(),
        before.adds(after, key),
    ensures
        after.wf(),
{
}

/// After a key is added, the filter contains it.
pub proof fn lemma_added_key_found(before: FilterModel, after: FilterModel, key: Seq<u8>)
    requires
        before.wf(),
        before.adds(after, key),
    ensures
        after.contains(key),
{
    assert forall|i: int| 0 <= i < after.hashes.len() implies #[trigger] after.bits[slot(
        after.hashes[i],
        key,
        after.size,
    )] by {
        let j = slot(after.hashes[i], key, after.size);
        assert(before.is_slot(key, j));
    }
}

/// Adding a key never removes another key that the filter contained.
pub proof fn lemma_add_keeps_members(
    before: FilterModel,
    after: FilterModel,
    key: Seq<u8>,
    other: Seq<u8>,
)
    requires
        before.wf(),
        before.adds(after, key),
        before.contains(other),
    ensures
        after.contains(other),
{
    assert forall|i: int| 0 <= i < after.hashes.len() implies #[trigger] after.bits[slot(
        after.hashes[i],
        other,
        after.size,
    )] by {
        assert(before.bits[slot(before.hashes[i], other, before.size)]);
    }
}

/// No false negatives: after any run of adds, the filter contains every key
/// that was added in it.
pub proof fn lemma_no_false_negatives(states: Seq<FilterModel>, keys: Seq<Seq<u8>>)
    requires
        add_run(states, keys),
    ensures
        forall|i: int| 0 <= i < keys.len() ==> states.last().contains(#[trigger] keys[i]),
    decreases keys.len(),
{
    if keys.len() > 0 {
        let n = keys.len() - 1;
        let prefix = states.drop_last();
        assert(add_run(prefix, keys.drop_last())) by {
            assert forall|i: int| 0 <= i < keys.drop_last().len() implies #[trigger] prefix[i].adds(
                prefix[i + 1],
                keys.drop_last()[i],
            ) by {
                assert(states[i].adds(states[i + 1], keys[i]));
            }
        }
        lemma_no_false_negatives(prefix, keys.drop_last());
        lemma_run_keeps_wf(prefix, keys.drop_last());
        assert(states[n].adds(states[n + 1], keys[n]));
        lemma_added_key_found(states[n], states[n + 1], keys[n]);
        assert forall|i: int| 0 <= i < keys.len() implies states.last().contains(
            #[trigger] keys[i],
        ) by {
            if i < n {
                assert(prefix.last().contains(keys.drop_last()[i]));
                lemma_add_keeps_members(states[n], states[n + 1], keys[n], keys[i]);
            }
        }
    }
}

/// Every filter along a run of adds is well-formed.
pub proof fn lemma_run_keeps_wf(states: Seq<FilterModel>, keys: Seq<Seq<u8>>)
    requires
        add_run(states, keys),
    ensures
        states.last().wf(),
    decreases keys.len(),
{
    if keys.len() > 0 {
        let n = keys.len() - 1;
        let prefix = states.drop_last();
        assert(add_run(prefix, keys.drop_last())) by {
            assert forall|i: int| 0 <= i < keys.drop_last().len() implies #[trigger] prefix[i].adds(
                prefix[i + 1],
                keys.drop_last()[i],
            ) by {
                assert(states[i].adds(states[i + 1], keys[i]));
            }
        }
        lemma_run_keeps_wf(prefix, keys.drop_last());
        assert(states[n].adds(states[n + 1], keys[n]));
        lemma_add_keeps_wf(states[n], states[n + 1], keys[n]);
    }
}

/// The flip counter counts every hash function of every add, collisions
/// included: after `n` adds it has grown by exactly `n` times the family's size.
pub proof fn lemma_flip_count(states: Seq<FilterModel>, keys: Seq<Seq<u8>>)
    requires
        add_run(states, keys),
    ensures
        states.last().flipped == states[0].flipped + keys.len() * hash_family().len(),
    decreases keys.len(),
{
    if keys.len() > 0 {
        let n = keys.len() - 1;
        let prefix = states.drop_last();
        assert(add_run(prefix, keys.drop_last())) by {
            assert forall|i: int| 0 <= i < keys.drop_last().len() implies #[trigger] prefix[i].adds(
                prefix[i + 1],
                keys.drop_last()[i],
            ) by {
                assert(states[i].adds(states[i + 1], keys[i]));
            }
        }
        lemma_flip_count(prefix, keys.drop_last());
        lemma_run_keeps_wf(prefix, keys.drop_last());
        assert(states[n].adds(states[n + 1], keys[n]));
        assert(prefix.last() == states[n]);
        assert(prefix[0] == states[0]);
        assert(states.last().flipped == states[n].flipped + hash_family().len());
        assert(n * hash_family().len() + hash_family().len() == keys.len() * hash_family().len())
            by (nonlinear_arith)
            requires
                n == keys.len() - 1,
        ;
    } else {
        assert(keys.len() * hash_family().len() == 0) by (nonlinear_arith)
            requires
                keys.len() == 0,
        ;
    }
}

} // verus!
