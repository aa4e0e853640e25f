use vstd::prelude::*;
use crate::addr::{Addr, addr_eq};
use crate::hashing::{sha256, sha256_of};

verus! {

/// One pre-verified score entry: an account, its score, and the digest that
/// vouches for the score.
pub struct LeaderboardEntry {
    pub address: Addr,
    pub score: u64,
    pub score_proof: Vec<u8>,
}

/// A position query: the entries to rank and the account asked about.
pub struct LeaderboardInput {
    pub entries: Vec<LeaderboardEntry>,
    pub query_address: Addr,
}

/// The answer to a position query. `position` is one-based; an absent
/// account reports position 1, not found and not in the top half.
pub struct QueryResult {
    pub found: bool,
    pub position: usize,
    pub total: usize,
    pub is_top_50: bool,
}

/// A 64-bit value as its eight big-endian bytes.
pub open spec fn be8_of_u64(n: u64) -> Seq<u8> {
    Seq::new(8, |i: int| (n >> (((7 - i) * 8) as u64)) as u8)
}

/// An entry's proof is exactly the digest of its score's big-endian bytes.
pub open spec fn entry_valid(e: LeaderboardEntry) -> bool {
    e.score_proof@ == sha256_of(be8_of_u64(e.score))
}

/// The entries whose proofs check out, in their given order.
pub open spec fn valid_entries(s: Seq<LeaderboardEntry>) -> Seq<LeaderboardEntry>
    decreases s.len(),
{
    if s.len() == 0 {
        Seq::empty()
    } else {
        valid_entries(s.drop_last()) + if entry_valid(s.last()) {
            seq![s.last()]
        } else {
            Seq::empty()
        }
    }
}

/// Insertion below every entry whose score is at least as large: a stable
/// descending order.
pub open spec fn spec_insert_desc(x: LeaderboardEntry, s: Seq<LeaderboardEntry>) -> Seq<
    LeaderboardEntry,
>
    decreases s.len(),
{
    if s.len() == 0 {
        seq![x]
    } else if s[0].score >= x.score {
        seq![s[0]] + spec_insert_desc(x, s.drop_first())
    } else {
        seq![x] + s
    }
}

/// Stable sort by descending score.
pub open spec fn sort_desc(s: Seq<LeaderboardEntry>) -> Seq<LeaderboardEntry>
    decreases s.len(),
{
    if s.len() == 0 {
        Seq::empty()
    } else {
        spec_insert_desc(s.last(), sort_desc(s.drop_last()))
    }
}

/// `i` is the first position of address `a` in the ranked list.
pub open spec fn entry_first_match(s: Seq<LeaderboardEntry>, a: Seq<u8>, i: int) -> bool {
    &&& 0 <= i < s.len()
    &&& s[i].address@ == a
    &&& forall|j: int| 0 <= j < i ==> s[j].address@ != a
}

/// Some entry in the ranked list carries address `a`.
pub open spec fn entry_contains(s: Seq<LeaderboardEntry>, a: Seq<u8>) -> bool {
    exists|i: int| 0 <= i < s.len() && s[i].address@ == a
}

/// The ranked board of a query's entries: proof-checked, then ordered by
/// descending score.
pub open spec fn ranked_board(input: LeaderboardInput) -> Seq<LeaderboardEntry> {
    sort_desc(valid_entries(input.entries@))
}

/// Appends a 64-bit value as its eight big-endian bytes.
fn push_be8_u64(out: &mut Vec<u8>, n: u64)
    ensures
        final(out)@ =~= old(out)@ + be8_of_u64(n),
{
    let mut k: usize = 0;
    while k < 8
        invariant
            0 <= k <= 8,
            out@ =~= old(out)@ + be8_of_u64(n).take(k as int),
        decreases 8 - k,
    {
        let sh: u64 = ((7 - k) * 8) as u64;
        out.push((n >> sh) as u8);
        proof {
            assert(out@ =~= old(out)@ + be8_of_u64(n).take(k + 1));
        }
        k += 1;
    }
    proof {
        assert(be8_of_u64(n).take(8) =~= be8_of_u64(n));
    }
}

/// Compares two byte vectors for equality.
fn bytes_eq(a: &Vec<u8>, b: &Vec<u8>) -> (r: bool)
    ensures
        r == (a@ =~= b@),
{
    let na = a.len();
    if na != b.len() {
        return false;
    }
    let mut i: usize = 0;
    while i < na
        invariant
            0 <= i <= na,
            na == a@.len(),
            na == b@.len(),
            forall|j: int| 0 <= j < i ==> a@[j] == b@[j],
        decreases na - i,
    {
        if a[i] != b[i] {
            return false;
        }
        i += 1;
    }
    true
}

/// Checks a score proof: the digest of the score's big-endian bytes must
/// equal the proof bytes.
pub fn verify_score(score: u64, score_proof: &Vec<u8>) -> (r: bool)
    ensures
        r == (score_proof@ == sha256_of(be8_of_u64(score))),
{
    let mut msg: Vec<u8> = Vec::new();
    push_be8_u64(&mut msg, score);
    let digest = sha256(&msg);
    bytes_eq(&digest, score_proof)
}

/// Inserting at a scanned boundary is what the recursive descending
/// insertion does.
proof fn lemma_insert_desc_at(x: LeaderboardEntry, s: Seq<LeaderboardEntry>, p: int)
    requires
        0 <= p <= s.len(),
        forall|j: int| 0 <= j < p ==> #[trigger] s[j].score >= x.score,
        p < s.len() ==> !(s[p].score >= x.score),
    ensures
        spec_insert_desc(x, s) =~= s.take(p) + seq![x] + s.skip(p),
    decreases s.len(),
{
    if p == 0 {
        if s.len() == 0 {
        } else {
            assert(!(s[0].score >= x.score));
        }
    } else {
        assert(s[0].score >= x.score);
        lemma_insert_desc_at(x, s.drop_first(), p - 1);
        assert(s.drop_first().take(p - 1) =~= s.take(p).drop_first());
        assert(s.drop_first().skip(p - 1) =~= s.skip(p));
    }
}

/// Inserts one entry into a board prefix, below all entries of at least its
/// score.
fn insert_desc(res: &mut Vec<LeaderboardEntry>, x: LeaderboardEntry)
    ensures
        final(res)@ =~= spec_insert_desc(x, old(res)@),
{
    let n = res.len();
    let mut p: usize = 0;
    while p < n && res[p].score >= x.score
        invariant
            0 <= p <= n,
            *res == *old(res),
            n == res@.len(),
            forall|j: int| 0 <= j < p ==> #[trigger] res@[j].score >= x.score,
        decreases n - p,
    {
        p += 1;
    }
    proof {
        lemma_insert_desc_at(x, res@, p as int);
    }
    res.insert(p, x);
}

/// Answers a position query exactly as the ranked board dictates: entries
/// with bad proofs are discarded, the rest are ranked by descending score,
/// and the queried account's first position — one-based — decides whether it
/// sits in the top half. An absent account reports position 1, not found.
pub fn leaderboard_query(input: LeaderboardInput) -> (r: QueryResult)
    ensures
        r.total == ranked_board(input).len(),
        r.found == entry_contains(ranked_board(input), input.query_address@),
        !r.found ==> r.position == 1 && !r.is_top_50,
        forall|i: int|
            entry_first_match(ranked_board(input), input.query_address@, i) ==> r.position == i + 1
                && r.is_top_50 == (i < ranked_board(input).len() / 2),
{
    let query = input.query_address;
    let mut rest = input.entries;
    let ghost all = rest@;
    let n = rest.len();
    let mut board: Vec<LeaderboardEntry> = Vec::new();
    let mut k: usize = 0;
    proof {
        assert(all.take(0int) =~= Seq::<LeaderboardEntry>::empty());
    }
    while k < n
        invariant
            0 <= k <= n,
            n == all.len(),
            rest@ =~= all.skip(k as int),
            board@ =~= sort_desc(valid_entries(all.take(k as int))),
        decreases n - k,
    {
        let e = rest.remove(0);
        proof {
            assert(all.skip(k as int)[0] == all[k as int]);
            assert(all.skip(k as int).subrange(1, all.skip(k as int).len() as int) =~= all.skip(
                k + 1,
            ));
            assert(all.take(k + 1).drop_last() =~= all.take(k as int));
            assert(all.take(k + 1).last() == all[k as int]);
        }
        if verify_score(e.score, &e.score_proof) {
            proof {
                assert(valid_entries(all.take(k + 1)) =~= valid_entries(all.take(k as int)).push(
                    all[k as int],
                ));
                assert(valid_entries(all.take(k + 1)).drop_last() =~= valid_entries(
                    all.take(k as int),
                ));
            }
            insert_desc(&mut board, e);
        } else {
            proof {
                assert(valid_entries(all.take(k + 1)) =~= valid_entries(all.take(k as int)));
            }
        }
        k += 1;
    }
    proof {
        assert(all.take(n as int) =~= all);
    }
    let total = board.len();
    let mut position: usize = 0;
    let mut found = false;
    let mut i: usize = 0;
    while i < total && !found
        invariant
            0 <= i <= total,
            total == board@.len(),
            !found ==> position == 0 && forall|j: int|
                0 <= j < i ==> board@[j].address@ != query@,
            found ==> position == i && i < total && entry_first_match(board@, query@, i as int),
        decreases total - i + (if found {
            0int
        } else {
            1int
        }),
    {
        if addr_eq(&board[i].address, &query) {
            position = i;
            found = true;
        } else {
            i += 1;
        }
    }
    let is_top_50 = if found {
        position < total / 2
    } else {
        false
    };
    QueryResult { found, position: position + 1, total, is_top_50 }
}

} // verus!
