use address_logger::leaderboard::{
    leaderboard_query, verify_score, LeaderboardEntry, LeaderboardInput,
};
use address_logger::tophalf::{median_score, top_half_results, AddressData};
use sha2::{Digest, Sha256};

type Addr = [u8; 20];

fn addr(tag: u8) -> Addr {
    let mut a = [0u8; 20];
    a[19] = tag;
    a
}

fn proof_for(score: u64) -> Vec<u8> {
    Sha256::digest(score.to_be_bytes()).to_vec()
}

fn entry(tag: u8, score: u64) -> LeaderboardEntry {
    LeaderboardEntry {
        address: addr(tag),
        score,
        score_proof: proof_for(score),
    }
}

#[test]
fn score_proofs_are_checked() {
    assert!(verify_score(500, &proof_for(500)));
    assert!(!verify_score(500, &proof_for(501)));
    assert!(!verify_score(500, &Vec::new()));
    let mut tampered = proof_for(500);
    tampered[0] ^= 1;
    assert!(!verify_score(500, &tampered));
}

#[test]
fn query_finds_position_in_descending_order() {
    let input = LeaderboardInput {
        entries: vec![entry(1, 50), entry(2, 900), entry(3, 300)],
        query_address: addr(3),
    };
    let r = leaderboard_query(input);
    assert!(r.found);
    assert_eq!(r.total, 3);
    // Ranked 900, 300, 50: the queried account sits second.
    assert_eq!(r.position, 2);
    // Index 1 is not below 3 / 2 == 1, so not in the top half.
    assert!(!r.is_top_50);
}

#[test]
fn query_top_position_is_top_50() {
    let input = LeaderboardInput {
        entries: vec![entry(1, 50), entry(2, 900), entry(3, 300), entry(4, 100)],
        query_address: addr(2),
    };
    let r = leaderboard_query(input);
    assert!(r.found);
    assert_eq!(r.position, 1);
    assert!(r.is_top_50);
}

#[test]
fn invalid_entries_are_discarded() {
    let mut bad = entry(2, 900);
    bad.score_proof = proof_for(901);
    let input = LeaderboardInput {
        entries: vec![entry(1, 50), bad, entry(3, 300)],
        query_address: addr(2),
    };
    let r = leaderboard_query(input);
    assert!(!r.found);
    assert_eq!(r.total, 2);
    assert_eq!(r.position, 1);
    assert!(!r.is_top_50);
}

#[test]
fn equal_scores_keep_entry_order() {
    let input = LeaderboardInput {
        entries: vec![entry(1, 300), entry(2, 300), entry(3, 300)],
        query_address: addr(2),
    };
    let r = leaderboard_query(input);
    assert_eq!(r.position, 2);
}

#[test]
fn median_of_odd_and_even_batches() {
    assert_eq!(median_score(&vec![5]), 5);
    assert_eq!(median_score(&vec![3, 1, 2]), 2);
    assert_eq!(median_score(&vec![4, 1, 2, 3]), 2);
    assert_eq!(median_score(&vec![1, 2]), 1);
    // The sum truncates toward zero, matching machine division.
    assert_eq!(median_score(&vec![-3, 0]), -1);
    assert_eq!(median_score(&vec![-3, -4]), -3);
}

#[test]
fn top_half_marks_scores_at_or_above_median() {
    let data = vec![
        AddressData {
            address: "a".to_string(),
            score: 10,
        },
        AddressData {
            address: "b".to_string(),
            score: 30,
        },
        AddressData {
            address: "c".to_string(),
            score: 20,
        },
    ];
    let r = top_half_results(data);
    assert_eq!(r.len(), 3);
    assert_eq!(r[0].address, "a");
    assert!(!r[0].is_top_half);
    assert_eq!(r[1].address, "b");
    assert!(r[1].is_top_half);
    assert_eq!(r[2].address, "c");
    assert!(r[2].is_top_half);
}
