use cuckoomap::{CuckooError, CuckooMap, Value, DEFAULT_CAPACITY};

#[test]
fn insert_scenario_words() {
    let words = ["foo", "bar", "xylophone", "milagro"];
    let mut cf = CuckooMap::new();

    let mut insertions = 0;
    for s in &words {
        if cf.test_and_add(s.as_bytes(), [0; 1]).unwrap() {
            insertions += 1;
        }
    }
    assert_eq!(insertions, 4);
    assert_eq!(cf.len(), 4);

    // Re-inserting an existing key overwrites its slot in place: the length
    // stays at four.
    cf.insert("foo".as_bytes(), [0; 1]).unwrap();
    assert_eq!(cf.len(), 4);

    for s in &words {
        assert!(cf.get(s.as_bytes()).is_some());
        assert!(cf.delete(s.as_bytes()));
    }
    assert_eq!(cf.len(), 0);
    assert!(cf.is_empty());
}

#[test]
fn default_capacity_rounding() {
    let cf = CuckooMap::new();
    assert!(cf.bucket_count().is_power_of_two());
    assert!(cf.bucket_count() >= DEFAULT_CAPACITY);
    assert_eq!(cf.bucket_count(), 1 << 20);
}

#[test]
fn capacity_rounding() {
    let cases: [(usize, usize); 9] = [
        (0, 1),
        (1, 1),
        (2, 2),
        (3, 4),
        (4, 4),
        (5, 8),
        (1000, 1024),
        (1024, 1024),
        (1025, 2048),
    ];
    for (requested, slots) in cases {
        let m = CuckooMap::with_capacity(requested);
        assert_eq!(m.bucket_count(), slots);
        assert!(m.bucket_count().is_power_of_two());
        assert!(m.bucket_count() >= 1);
        assert!(m.bucket_count() >= requested);
        assert!(m.is_empty());
    }
}

#[test]
fn idempotent_reinsertion() {
    let mut m = CuckooMap::with_capacity(64);
    m.insert(b"alpha", [7]).unwrap();
    let len_after_first = m.len();
    assert_eq!(m.get(b"alpha"), Some([7]));

    m.insert(b"alpha", [9]).unwrap();
    assert_eq!(m.len(), len_after_first);
    assert_eq!(m.get(b"alpha"), Some([9]));
    assert_eq!(m.occupied_buckets(), m.len());
}

#[test]
fn delete_insert_symmetry() {
    let mut m = CuckooMap::with_capacity(64);
    m.insert(b"cycle", [3]).unwrap();
    assert!(m.delete(b"cycle"));
    assert_eq!(m.get(b"cycle"), None);
    assert_eq!(m.len(), 0);
    assert!(!m.delete(b"cycle"));

    m.insert(b"cycle", [4]).unwrap();
    assert_eq!(m.get(b"cycle"), Some([4]));
    assert_eq!(m.len(), 1);
}

#[test]
fn clear_resets_fully() {
    let mut m = CuckooMap::with_capacity(16);
    let keys = ["a", "b", "c"];
    for (i, k) in keys.iter().enumerate() {
        m.insert(k.as_bytes(), [i as u8]).unwrap();
    }
    assert!(!m.is_empty());

    m.clear();
    assert!(m.is_empty());
    assert_eq!(m.len(), 0);
    assert_eq!(m.occupied_buckets(), 0);
    for k in keys {
        assert_eq!(m.get(k.as_bytes()), None);
    }

    // Clearing an already-empty map is a no-op.
    m.clear();
    assert!(m.is_empty());
}

#[test]
fn not_enough_space_on_full_table() {
    let mut m = CuckooMap::with_capacity(1);
    assert_eq!(m.bucket_count(), 1);
    m.insert(b"first", [1]).unwrap();

    // Find a key the single-slot table does not answer for: its fingerprint
    // differs from the stored one, so insertion must run its bounded
    // eviction chain and give up.
    let mut verdict = None;
    for i in 0u32..100 {
        let key = i.to_le_bytes();
        if m.get(&key).is_none() {
            verdict = Some(m.insert(&key, [2]));
            break;
        }
    }
    let outcome = verdict.expect("some key must miss in a one-slot table");
    assert!(matches!(outcome, Err(CuckooError::NotEnoughSpace)));
}

#[test]
fn no_false_negatives_at_moderate_load() {
    let mut m = CuckooMap::with_capacity(1024);
    for i in 0u32..100 {
        m.insert(&i.to_le_bytes(), [i as u8]).unwrap();
    }
    for i in 0u32..100 {
        assert!(m.get(&i.to_le_bytes()).is_some());
    }
}

#[test]
fn len_matches_occupied_scan() {
    // The length counter must track the literal count of occupied buckets
    // through direct placements, evictions, failed insertions and deletes.
    let mut m = CuckooMap::with_capacity(8);
    for i in 0u32..20 {
        let _ = m.insert(&i.to_le_bytes(), [i as u8]);
        assert_eq!(m.occupied_buckets(), m.len());
    }
    for i in 0u32..20 {
        let _ = m.delete(&i.to_le_bytes());
        assert_eq!(m.occupied_buckets(), m.len());
    }
}

#[test]
fn memory_usage_counts_the_array() {
    let m = CuckooMap::with_capacity(256);
    let expected = std::mem::size_of::<CuckooMap>()
        + m.bucket_count() * std::mem::size_of::<cuckoomap::bucket::Bucket>();
    assert_eq!(m.memory_usage(), expected);
}

#[test]
fn value_carries_its_byte() {
    let v = Value(42);
    let mut m = CuckooMap::with_capacity(4);
    m.insert(b"payload", [v.0]).unwrap();
    assert_eq!(m.get(b"payload"), Some([42]));
}
