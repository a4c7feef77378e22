//! Tests of the content addresser and the local store.

use cas_node::addr::identify;
use cas_node::hex::{bytes_eq, hex_decode, hex_encode};
use cas_node::store::LocalStore;
use sha2::{Digest, Sha256};

const HELLO_WORLD_HEX: &str = "b94d27b9934d3e08a52e52d7da7dabfac484efe37a5380ee9088f7ace2efcde9";

#[test]
fn identify_is_deterministic() {
    let a = identify(b"some payload");
    let b = identify(b"some payload");
    assert!(a.matches(&b));
    let c = identify(b"another payload");
    assert!(!a.matches(&c));
}

#[test]
fn identify_matches_reference_sha256() {
    // The library's digest wrapper must agree with a direct use of sha2.
    let payload = b"hello world";
    let id = identify(payload);
    let direct = Sha256::digest(payload);
    assert_eq!(id.as_bytes(), direct.as_slice());
    assert_eq!(id.hex_bytes(), HELLO_WORLD_HEX.as_bytes());
}

#[test]
fn identify_empty_payload() {
    let id = identify(b"");
    assert_eq!(
        id.hex_bytes(),
        b"e3b0c44298fc1c149afbf4c8996fb92427ae41e4649b934ca495991b7852b855".to_vec()
    );
}

#[test]
fn hex_round_trip() {
    let data = vec![0x00u8, 0x01, 0x0f, 0x10, 0x7f, 0x80, 0xab, 0xcd, 0xef, 0xff];
    let enc = hex_encode(&data);
    assert_eq!(enc, b"00010f107f80abcdefff".to_vec());
    let dec = hex_decode(&enc).expect("well-formed hex must parse");
    assert_eq!(dec, data);
}

#[test]
fn hex_decode_rejects_bad_input() {
    assert!(hex_decode(b"abc").is_none()); // odd length
    assert!(hex_decode(b"0g").is_none()); // not a hex digit
    assert!(hex_decode(b"AB").is_none()); // upper case is not canonical
    assert_eq!(hex_decode(b"").unwrap(), Vec::<u8>::new());
}

#[test]
fn bytes_eq_compares_contents() {
    assert!(bytes_eq(b"abc", b"abc"));
    assert!(!bytes_eq(b"abc", b"abd"));
    assert!(!bytes_eq(b"abc", b"ab"));
    assert!(bytes_eq(b"", b""));
}

#[test]
fn put_then_get_returns_payload() {
    let mut store = LocalStore::new();
    let payload = b"the quick brown fox";
    let id = store.put(payload, 7);
    let back = store.get(&id).expect("stored payload must be retrievable");
    assert_eq!(back, payload.to_vec());
}

#[test]
fn put_is_idempotent() {
    let mut store = LocalStore::new();
    let a = store.put(b"same bytes", 1);
    assert_eq!(store.object_count(), 1);
    let b = store.put(b"same bytes", 2);
    assert_eq!(store.object_count(), 1);
    assert!(a.matches(&b));
    assert_eq!(store.get(&a).unwrap(), b"same bytes".to_vec());
}

#[test]
fn has_reports_presence() {
    let mut store = LocalStore::new();
    let never_stored = identify(b"never stored");
    assert!(!store.has(&never_stored));
    let id = store.put(b"present", 3);
    assert!(store.has(&id));
    assert!(!store.has(&never_stored));
}

#[test]
fn racing_puts_leave_one_clean_object() {
    // Two uploads of identical content, in whichever order they serialize,
    // leave exactly one object whose bytes are the input.
    let mut store = LocalStore::new();
    let payload = b"raced payload";
    let first = store.put(payload, 10);
    let second = store.put(payload, 11);
    assert!(first.matches(&second));
    assert_eq!(store.object_count(), 1);
    assert_eq!(store.get(&first).unwrap(), payload.to_vec());
}

#[test]
fn distinct_payloads_get_distinct_objects() {
    let mut store = LocalStore::new();
    let a = store.put(b"payload a", 1);
    let b = store.put(b"payload b", 2);
    assert!(!a.matches(&b));
    assert_eq!(store.object_count(), 2);
    assert_eq!(store.get(&a).unwrap(), b"payload a".to_vec());
    assert_eq!(store.get(&b).unwrap(), b"payload b".to_vec());
}
