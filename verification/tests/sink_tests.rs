use weakwallets::index::CollisionIndex;
use weakwallets::record::Record;
use weakwallets::resolve::resolve;
use weakwallets::sink::{output_filename, render_output, to_decimal};

#[test]
fn decimal_of_zero() {
    assert_eq!(to_decimal(0), b"0".to_vec());
}

#[test]
fn decimal_of_single_digit() {
    assert_eq!(to_decimal(7), b"7".to_vec());
}

#[test]
fn decimal_of_many_digits() {
    assert_eq!(to_decimal(12345), b"12345".to_vec());
}

#[test]
fn decimal_of_round_number() {
    assert_eq!(to_decimal(1000), b"1000".to_vec());
}

#[test]
fn decimal_of_largest_value() {
    assert_eq!(to_decimal(u64::MAX), b"18446744073709551615".to_vec());
}

#[test]
fn filename_carries_the_block_range() {
    assert_eq!(output_filename(10, 42), b"weak_wallets-10-42.csv".to_vec());
}

#[test]
fn filename_of_zero_range() {
    assert_eq!(output_filename(0, 0), b"weak_wallets-0-0.csv".to_vec());
}

#[test]
fn render_empty_index_is_header_only() {
    let index = CollisionIndex::new();
    let r = resolve(&index);
    let out = render_output(&index, &r.weak);
    assert_eq!(out, b"txid;sig\n".to_vec());
}

#[test]
fn render_writes_one_row_per_colliding_record() {
    let mut index = CollisionIndex::new();
    index.insert(Record {
        txid: b"aa11".to_vec(),
        input_index: 0,
        block_height: 5,
        sig_hex: b"30450221".to_vec(),
        fingerprint: b"fp-one".to_vec(),
    });
    index.insert(Record {
        txid: b"bb22".to_vec(),
        input_index: 1,
        block_height: 5,
        sig_hex: b"30440220".to_vec(),
        fingerprint: b"fp-two".to_vec(),
    });
    index.insert(Record {
        txid: b"cc33".to_vec(),
        input_index: 0,
        block_height: 6,
        sig_hex: b"304602fe".to_vec(),
        fingerprint: b"fp-one".to_vec(),
    });
    let r = resolve(&index);
    let out = render_output(&index, &r.weak);
    let expected = b"txid;sig\naa11;30450221\ncc33;304602fe\n".to_vec();
    assert_eq!(out, expected);
}
