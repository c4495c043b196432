use weakwallets::fingerprint::extract;
use weakwallets::hex::{bytes_eq, clone_bytes, to_hex, to_hex_swapped};

fn hex_string(bytes: &[u8]) -> String {
    let mut s = String::new();
    for b in bytes {
        s.push_str(&format!("{:02x}", b));
    }
    s
}

#[test]
fn to_hex_known_value() {
    let v: Vec<u8> = vec![0x00, 0xab, 0xff];
    assert_eq!(to_hex(&v), b"00abff".to_vec());
}

#[test]
fn to_hex_empty() {
    let v: Vec<u8> = Vec::new();
    assert_eq!(to_hex(&v), Vec::<u8>::new());
}

#[test]
fn to_hex_swapped_known_value() {
    let v: Vec<u8> = vec![0x12, 0x34, 0xab];
    assert_eq!(to_hex_swapped(&v), b"ab3412".to_vec());
}

#[test]
fn bytes_eq_decides_equality() {
    let a: Vec<u8> = vec![1, 2, 3];
    let b: Vec<u8> = vec![1, 2, 3];
    let c: Vec<u8> = vec![1, 2, 4];
    let d: Vec<u8> = vec![1, 2];
    assert!(bytes_eq(&a, &b));
    assert!(!bytes_eq(&a, &c));
    assert!(!bytes_eq(&a, &d));
}

#[test]
fn clone_bytes_copies_contents() {
    let a: Vec<u8> = vec![9, 8, 7];
    assert_eq!(clone_bytes(&a), a);
}

#[test]
fn extract_returns_none_on_short_script() {
    // 20 bytes hex-encode to 40 characters, well below the 74-character minimum.
    let script: Vec<u8> = vec![0x55; 20];
    assert_eq!(extract(&script), None);
}

#[test]
fn extract_returns_none_on_empty_script() {
    let script: Vec<u8> = Vec::new();
    assert_eq!(extract(&script), None);
}

#[test]
fn extract_returns_none_at_exactly_minimum() {
    // 37 bytes hex-encode to exactly 74 characters; eligibility is strict.
    let script: Vec<u8> = vec![0x30; 37];
    assert_eq!(extract(&script), None);
}

#[test]
fn extract_returns_fingerprint_above_minimum() {
    // 38 bytes hex-encode to 76 characters; the fingerprint is characters
    // 10..74 of the hex encoding, i.e. bytes 5..37 of the script.
    let mut script: Vec<u8> = Vec::new();
    for i in 0..38u8 {
        script.push(i);
    }
    let expected = hex_string(&script[5..37]).into_bytes();
    let got = extract(&script).expect("script above the minimum must fingerprint");
    assert_eq!(got.len(), 64);
    assert_eq!(got, expected);
}

#[test]
fn extract_is_deterministic() {
    let script: Vec<u8> = (0..60u8).map(|i| i.wrapping_mul(7)).collect();
    let first = extract(&script);
    let second = extract(&script);
    assert_eq!(first, second);
    assert!(first.is_some());
}

#[test]
fn extract_ignores_bytes_outside_the_slice() {
    // Two scripts equal in bytes 5..37 share a fingerprint even when their
    // other bytes differ.
    let mut a: Vec<u8> = vec![0xaa; 40];
    let mut b: Vec<u8> = vec![0xbb; 40];
    for i in 5..37 {
        a[i] = i as u8;
        b[i] = i as u8;
    }
    assert_eq!(extract(&a).unwrap(), extract(&b).unwrap());
}
