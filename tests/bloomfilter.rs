use bloomfilter::bits::BitStorage;
use bloomfilter::filter::BloomFilter;
use bloomfilter::hashing::fold_digest;
use bloomfilter::hashing::hash_fnv1a;
use bloomfilter::hashing::hash_murmur3;
use bloomfilter::hashing::HashFn;

#[test]
fn exists_scenario() {
    let load_strings: [&str; 7] =
        ["cat", "dog", "mate", "frog", "moose", "el capitan", "spruce goose"];
    let testcases: [(&str, bool); 6] = [
        ("klingon", false),
        ("frog", true),
        ("donkey", false),
        ("tame", false),
        ("spruce goose", true),
        ("light speed", false),
    ];
    let mut b = BloomFilter::new(100);
    for j in 0..load_strings.len() {
        b.add(load_strings[j]);
    }
    for i in 0..testcases.len() {
        let actual = b.key_exists(testcases[i].0);
        println!("Checking key: {} ; returned: {}", testcases[i].0, actual);
        assert_eq!(actual, testcases[i].1);
    }
}

#[test]
fn added_keys_are_found() {
    let keys = ["alpha", "beta", "", "gamma delta", "a key longer than sixteen bytes"];
    let mut b = BloomFilter::new(8);
    for k in keys.iter() {
        b.add(k);
    }
    for k in keys.iter() {
        assert!(b.key_exists(k));
    }
}

#[test]
fn repeated_queries_agree() {
    let mut b = BloomFilter::new(10);
    b.add("cat");
    for q in ["cat", "dog", "klingon"].iter() {
        let first = b.key_exists(q);
        let second = b.key_exists(q);
        assert_eq!(first, second);
    }
    assert!(b.key_exists("cat"));
}

#[test]
fn empty_filter_holds_nothing() {
    let b = BloomFilter::new(30);
    assert!(!b.key_exists("cat"));
    assert!(!b.key_exists(""));
    assert_eq!(b.total_flipped(), 0);
}

#[test]
fn requested_capacity_is_ignored() {
    assert_eq!(BloomFilter::new(100).size, 1024);
    assert_eq!(BloomFilter::new(0).size, 1024);
    assert_eq!(BloomFilter::new(u64::MAX).size, 1024);
    assert_eq!(BloomFilter::new(5).filter.size(), 1024);
}

#[test]
fn fnv1a_known_values() {
    assert_eq!(hash_fnv1a(""), 0xcbf29ce484222325);
    assert_eq!(hash_fnv1a("a"), 0xaf63dc4c8601ec8c);
    assert_eq!(hash_fnv1a("cat"), 17718013163177550631);
}

#[test]
fn murmur3_known_values() {
    assert_eq!(hash_murmur3(""), 0);
    assert_eq!(hash_murmur3("hello"), 8800181715663418427);
}

#[test]
fn hashes_are_stable() {
    for k in ["", "cat", "spruce goose", "a key longer than sixteen bytes"].iter() {
        assert_eq!(hash_fnv1a(k), hash_fnv1a(k));
        assert_eq!(hash_murmur3(k), hash_murmur3(k));
        assert_eq!(HashFn::Fnv1a.apply(k), hash_fnv1a(k));
        assert_eq!(HashFn::Murmur3.apply(k), hash_murmur3(k));
    }
}

#[test]
fn fold_digest_values() {
    assert_eq!(fold_digest(&[]), 0);
    assert_eq!(fold_digest(&[1]), 0x100000001b3);
    let hello: [u8; 16] = [
        0x02, 0x9b, 0xbd, 0x41, 0xb3, 0xa7, 0xd8, 0xcb, 0x19, 0x1d, 0xae, 0x48, 0x6a, 0x90, 0x1e,
        0x5b,
    ];
    assert_eq!(fold_digest(&hello), 8800181715663418427);
}

#[test]
fn flip_counter_counts_collisions() {
    let mut b = BloomFilter::new(100);
    b.add("cat");
    assert_eq!(b.total_flipped(), 2);
    b.add("cat");
    b.add("cat");
    assert_eq!(b.total_flipped(), 6);
    b.add("dog");
    assert_eq!(b.total_flipped(), 8);
}

#[test]
fn calc_index_is_hash_mod_size() {
    let b = BloomFilter::new(100);
    assert_eq!(b.calc_index("cat", HashFn::Fnv1a), 807);
    assert_eq!(b.calc_index("cat", HashFn::Murmur3), 486);
    for k in ["", "frog", "light speed", "el capitan"].iter() {
        assert!(b.calc_index(k, HashFn::Fnv1a) < b.size);
        assert!(b.calc_index(k, HashFn::Murmur3) < b.size);
    }
}

#[test]
fn add_sets_both_slots() {
    let mut b = BloomFilter::new(100);
    b.add("cat");
    assert_eq!(b.filter.get(807), Some(true));
    assert_eq!(b.filter.get(486), Some(true));
    assert_eq!(b.filter.get(0), Some(false));
}

#[test]
fn bit_storage_get_set() {
    let mut s = BitStorage::new();
    assert_eq!(s.size(), 1024);
    assert_eq!(s.get(0), Some(false));
    assert_eq!(s.get(1023), Some(false));
    s.set(5, true);
    assert_eq!(s.get(5), Some(true));
    assert_eq!(s.get(4), Some(false));
    s.set(5, false);
    assert_eq!(s.get(5), Some(false));
    s.set(1023, true);
    assert_eq!(s.get(1023), Some(true));
}

#[test]
fn bit_storage_out_of_range() {
    let s = BitStorage::new();
    assert_eq!(s.get(1024), None);
    assert_eq!(s.get(usize::MAX), None);
}
