use address_logger::hashrec::{hash_address_data, render_canonical, sort_addresses, AddressScore};
use sha3::{Digest, Keccak256};

fn score(address: &str, score: u32) -> AddressScore {
    AddressScore {
        id: None,
        address: address.to_string(),
        score,
        created_at: None,
    }
}

/// The reference pipeline, built directly on the ordinary serializer: sort
/// by address, lowercase each address, serialize as a JSON array of
/// two-field objects, digest, hex.
fn reference_hash(mut records: Vec<AddressScore>) -> String {
    records.sort_by(|a, b| a.address.cmp(&b.address));
    let values: Vec<serde_json::Value> = records
        .iter()
        .map(|r| {
            let mut obj = serde_json::Map::new();
            obj.insert(
                "address".to_string(),
                serde_json::Value::String(r.address.to_lowercase()),
            );
            obj.insert(
                "score".to_string(),
                serde_json::Value::Number(serde_json::Number::from(r.score)),
            );
            serde_json::Value::Object(obj)
        })
        .collect();
    let serialized = serde_json::to_string(&values).unwrap();
    hex::encode(Keccak256::digest(serialized.as_bytes()))
}

#[test]
fn test_hash_determinism() {
    let addresses = vec![score("0xB", 500), score("0xA", 100)];
    let addresses_again = vec![score("0xB", 500), score("0xA", 100)];

    let result1 = hash_address_data(addresses, 0);
    let result2 = hash_address_data(addresses_again, 0);

    assert_eq!(
        result1.hash, result2.hash,
        "Hashes should be identical for same input"
    );
}

#[test]
fn hash_matches_ordinary_serializer() {
    let records = vec![
        score("0xB00F", 500),
        score("0xA1", 100),
        score("0xA1", 7),
        score("MiXeD", 42),
    ];
    let again = vec![
        score("0xB00F", 500),
        score("0xA1", 100),
        score("0xA1", 7),
        score("MiXeD", 42),
    ];
    let r = hash_address_data(records, 123);
    assert_eq!(r.hash, reference_hash(again));
    assert_eq!(r.timestamp, 123);
    assert_eq!(r.record_count, 4);
}

#[test]
fn hash_escapes_like_ordinary_serializer() {
    let awkward = vec![
        score("with \"quotes\" and \\slash", 1),
        score("line\nbreak\ttab \u{1} control", 2),
        score("unicode \u{e9}\u{4e16}", 3),
    ];
    let again = vec![
        score("with \"quotes\" and \\slash", 1),
        score("line\nbreak\ttab \u{1} control", 2),
        score("unicode \u{e9}\u{4e16}", 3),
    ];
    assert_eq!(hash_address_data(awkward, 0).hash, reference_hash(again));
}

#[test]
fn empty_batch_hashes_the_empty_array() {
    let r = hash_address_data(Vec::new(), 9);
    assert_eq!(r.record_count, 0);
    // The digest of "[]", hex-rendered: 64 digits, and certainly not the
    // serialized input handed back.
    assert_eq!(r.hash.len(), 64);
    assert_eq!(r.hash, hex::encode(Keccak256::digest(b"[]")));
}

#[test]
fn canonical_rendering_is_compact_sorted_json() {
    let records = vec![score("0xAB", 10)];
    let bytes = render_canonical(&records);
    assert_eq!(
        String::from_utf8(bytes).unwrap(),
        "[{\"address\":\"0xab\",\"score\":10}]"
    );
}

#[test]
fn sorting_is_stable_by_address() {
    let records = vec![score("b", 1), score("a", 2), score("a", 3), score("A", 4)];
    let sorted = sort_addresses(records);
    let keys: Vec<(String, u32)> = sorted
        .iter()
        .map(|r| (r.address.clone(), r.score))
        .collect();
    // Capital letters sort before lowercase in byte order, and the two "a"
    // records keep their relative order.
    assert_eq!(
        keys,
        vec![
            ("A".to_string(), 4),
            ("a".to_string(), 2),
            ("a".to_string(), 3),
            ("b".to_string(), 1),
        ]
    );
}
