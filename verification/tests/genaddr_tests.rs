use address_logger::genaddr::{generate_address, generate_addresses, generate_score};

#[test]
fn generated_addresses_have_the_canonical_shape() {
    for _ in 0..16 {
        let a = generate_address();
        assert_eq!(a.len(), 42);
        assert!(a.starts_with("0x"));
        assert!(a[2..]
            .chars()
            .all(|c| c.is_ascii_digit() || ('a'..='f').contains(&c)));
    }
}

#[test]
fn generated_scores_stay_in_range() {
    for _ in 0..64 {
        let s = generate_score();
        assert!((100..=1000).contains(&s));
    }
}

#[test]
fn generated_batches_have_the_requested_size() {
    let batch = generate_addresses(25);
    assert_eq!(batch.len(), 25);
    for record in &batch {
        assert!(record.id.is_none());
        assert!(record.created_at.is_none());
        assert!((100..=1000).contains(&record.score));
        assert_eq!(record.address.len(), 42);
    }
    assert!(generate_addresses(0).is_empty());
}
