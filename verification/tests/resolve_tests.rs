use weakwallets::index::CollisionIndex;
use weakwallets::record::Record;
use weakwallets::resolve::resolve;

fn record(txid: &[u8], fingerprint: &[u8]) -> Record {
    Record {
        txid: txid.to_vec(),
        input_index: 0,
        block_height: 0,
        sig_hex: fingerprint.to_vec(),
        fingerprint: fingerprint.to_vec(),
    }
}

#[test]
fn pair_collision_emits_both() {
    let mut index = CollisionIndex::new();
    index.insert(record(b"aa", b"fingerprint-one"));
    index.insert(record(b"bb", b"something-else"));
    index.insert(record(b"cc", b"fingerprint-one"));
    let r = resolve(&index);
    assert_eq!(r.weak, vec![0, 2]);
    assert_eq!(r.weak_count, 2);
    assert_eq!(r.comparisons, 3);
}

#[test]
fn unique_fingerprints_emit_nothing() {
    let mut index = CollisionIndex::new();
    index.insert(record(b"aa", b"one"));
    index.insert(record(b"bb", b"two"));
    index.insert(record(b"cc", b"three"));
    let r = resolve(&index);
    assert_eq!(r.weak, Vec::<usize>::new());
    assert_eq!(r.weak_count, 0);
    assert_eq!(r.comparisons, 3);
}

#[test]
fn triple_collision_emits_all_three() {
    let mut index = CollisionIndex::new();
    index.insert(record(b"aa", b"same"));
    index.insert(record(b"bb", b"same"));
    index.insert(record(b"cc", b"same"));
    let r = resolve(&index);
    assert_eq!(r.weak, vec![0, 1, 2]);
    assert_eq!(r.weak_count, 3);
}

#[test]
fn shared_prefix_is_not_a_collision() {
    // The resolver groups by the first eight bytes of the fingerprint; two
    // fingerprints that share those bytes but differ later must not collide.
    let mut index = CollisionIndex::new();
    index.insert(record(b"aa", b"prefix00-tail-one"));
    index.insert(record(b"bb", b"prefix00-tail-two"));
    let r = resolve(&index);
    assert_eq!(r.weak, Vec::<usize>::new());
    assert_eq!(r.weak_count, 0);
}

#[test]
fn empty_index_resolves_to_nothing() {
    let index = CollisionIndex::new();
    let r = resolve(&index);
    assert_eq!(r.weak, Vec::<usize>::new());
    assert_eq!(r.weak_count, 0);
    assert_eq!(r.comparisons, 0);
}

#[test]
fn index_reports_length_and_records() {
    let mut index = CollisionIndex::new();
    assert_eq!(index.len(), 0);
    index.insert(record(b"aa", b"one"));
    index.insert(record(b"bb", b"two"));
    assert_eq!(index.len(), 2);
    assert_eq!(index.get(0).txid, b"aa".to_vec());
    assert_eq!(index.get(1).fingerprint, b"two".to_vec());
}
