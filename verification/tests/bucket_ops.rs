use cuckoomap::bucket::{Bucket, Fingerprint};

#[test]
fn fingerprint_rejects_empty_marker() {
    assert!(Fingerprint::from_data([0xff]).is_none());
    let f = Fingerprint::from_data([0x00]).expect("zero is a valid fingerprint");
    assert!(!f.is_empty());
    assert!(Fingerprint::empty().is_empty());
}

#[test]
fn fingerprint_matches_and_copy() {
    let f = Fingerprint::from_data([0x2a]).unwrap();
    assert!(f.matches(&f));
    assert!(!f.matches(&Fingerprint::empty()));

    let mut g = Fingerprint::empty();
    g.slice_copy(&[0x2a]);
    assert_eq!(g.data, [0x2a]);
    assert!(g.matches(&f));
}

#[test]
fn bucket_state_machine() {
    let f1 = Fingerprint::from_data([1]).unwrap();
    let f2 = Fingerprint::from_data([2]).unwrap();

    let mut b = Bucket::new();
    assert!(b.fingerprint.is_empty());

    // empty -> occupied
    assert!(b.set(f1, [10]));
    assert_eq!(b.value, [10]);

    // same fingerprint -> value overwritten
    assert!(b.set(f1, [11]));
    assert_eq!(b.value, [11]);

    // different fingerprint -> rejected, bucket untouched
    assert!(!b.set(f2, [12]));
    assert!(b.fingerprint.matches(&f1));
    assert_eq!(b.value, [11]);

    // wrong fingerprint -> delete is a no-op
    assert!(!b.reset(f2));
    assert!(b.fingerprint.matches(&f1));

    // matching fingerprint -> emptied
    assert!(b.reset(f1));
    assert!(b.fingerprint.is_empty());

    // empty again accepts a different entry
    assert!(b.set(f2, [12]));
    b.clear();
    assert!(b.fingerprint.is_empty());
}
