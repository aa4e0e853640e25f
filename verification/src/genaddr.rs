use vstd::prelude::*;
use crate::hashing::{hex_encode, hex_of};
use crate::hashrec::AddressScore;

verus! {

/// Relies on rand::random: one random byte; nothing is promised of its
/// value, and two calls may differ.
#[verifier::external_body]
fn random_byte() -> u8 {
    rand::random()
}

/// Relies on rand::Rng::random_range: a value drawn from the given
/// inclusive range.
#[verifier::external_body]
fn random_in_range(lo: u32, hi: u32) -> (r: u32)
    requires
        lo <= hi,
    ensures
        lo <= r <= hi,
{
    <rand::rngs::ThreadRng as rand::Rng>::random_range(&mut rand::rng(), lo..=hi)
}

/// The shape every generated address has: `0x` followed by the lowercase
/// hexadecimal rendering of twenty bytes.
pub open spec fn is_generated_address(s: Seq<char>) -> bool {
    exists|b: Seq<u8>| b.len() == 20 && s == "0x"@ + hex_of(b)
}

/// A fresh pseudo-random address: twenty random bytes, hex-rendered behind
/// a `0x` prefix.
pub fn generate_address() -> (r: String)
    ensures
        is_generated_address(r@),
        r@.len() == 42,
{
    let mut bytes: Vec<u8> = Vec::new();
    let mut i: usize = 0;
    while i < 20
        invariant
            0 <= i <= 20,
            bytes@.len() == i,
        decreases 20 - i,
    {
        bytes.push(random_byte());
        i += 1;
    }
    let hex = hex_encode(&bytes);
    let mut s = String::from_str("0x");
    s.append(hex.as_str());
    proof {
        reveal_strlit("0x");
        assert(bytes@.len() == 20 && s@ == "0x"@ + hex_of(bytes@));
    }
    s
}

/// A fresh pseudo-random score, between 100 and 1000 inclusive.
pub fn generate_score() -> (r: u32)
    ensures
        100 <= r <= 1000,
{
    random_in_range(100, 1000)
}

/// A batch of `count` fresh records: generated addresses with generated
/// scores, no database id and no creation time.
pub fn generate_addresses(count: u32) -> (r: Vec<AddressScore>)
    ensures
        r@.len() == count,
        forall|i: int|
            0 <= i < r@.len() ==> {
                &&& (#[trigger] r@[i]).id is None
                &&& r@[i].created_at is None
                &&& 100 <= r@[i].score <= 1000
                &&& is_generated_address(r@[i].address@)
            },
{
    let mut out: Vec<AddressScore> = Vec::new();
    let mut i: u32 = 0;
    while i < count
        invariant
            0 <= i <= count,
            out@.len() == i,
            forall|j: int|
                0 <= j < out@.len() ==> {
                    &&& (#[trigger] out@[j]).id is None
                    &&& out@[j].created_at is None
                    &&& 100 <= out@[j].score <= 1000
                    &&& is_generated_address(out@[j].address@)
                },
        decreases count - i,
    {
        let address = generate_address();
        let score = generate_score();
        out.push(AddressScore { id: None, address, score, created_at: None });
        i += 1;
    }
    out
}

} // verus!
