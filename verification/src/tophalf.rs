use vstd::prelude::*;

verus! {

/// One scored address, as read back from the collaborator database.
pub struct AddressData {
    pub address: String,
    pub score: i64,
}

/// One line of a top-half report: the address and whether its score reaches
/// the median.
pub struct TopHalfEntry {
    pub address: String,
    pub is_top_half: bool,
}

/// Insertion above every score that is at most the new one: a stable
/// ascending order.
pub open spec fn spec_insert_asc(x: i64, s: Seq<i64>) -> Seq<i64>
    decreases s.len(),
{
    if s.len() == 0 {
        seq![x]
    } else if s[0] <= x {
        seq![s[0]] + spec_insert_asc(x, s.drop_first())
    } else {
        seq![x] + s
    }
}

/// Scores in ascending order.
pub open spec fn sort_asc(s: Seq<i64>) -> Seq<i64>
    decreases s.len(),
{
    if s.len() == 0 {
        Seq::empty()
    } else {
        spec_insert_asc(s.last(), sort_asc(s.drop_last()))
    }
}

/// The average of two numbers with the division truncated toward zero, the
/// way machine division of the possibly negative sum behaves.
pub open spec fn trunc_avg(a: int, b: int) -> int {
    if a + b >= 0 {
        (a + b) / 2
    } else {
        -((-(a + b)) / 2)
    }
}

/// The median of a nonempty score list: the middle of the ascending order,
/// or the truncated average of the two middle scores when the count is even.
pub open spec fn median_of(scores: Seq<i64>) -> int {
    let s = sort_asc(scores);
    if s.len() % 2 == 1 {
        s[s.len() as int / 2] as int
    } else {
        trunc_avg(s[s.len() as int / 2 - 1] as int, s[s.len() as int / 2] as int)
    }
}

/// Inserting at a scanned boundary is what the recursive ascending
/// insertion does.
proof fn lemma_insert_asc_at(x: i64, s: Seq<i64>, p: int)
    requires
        0 <= p <= s.len(),
        forall|j: int| 0 <= j < p ==> #[trigger] s[j] <= x,
        p < s.len() ==> !(s[p] <= x),
    ensures
        spec_insert_asc(x, s) =~= s.take(p) + seq![x] + s.skip(p),
    decreases s.len(),
{
    if p == 0 {
        if s.len() == 0 {
        } else {
            assert(!(s[0] <= x));
        }
    } else {
        assert(s[0] <= x);
        lemma_insert_asc_at(x, s.drop_first(), p - 1);
        assert(s.drop_first().take(p - 1) =~= s.take(p).drop_first());
        assert(s.drop_first().skip(p - 1) =~= s.skip(p));
    }
}

/// Sorts scores ascending.
fn sort_scores(input: &Vec<i64>) -> (r: Vec<i64>)
    ensures
        r@ =~= sort_asc(input@),
{
    let n = input.len();
    let mut res: Vec<i64> = Vec::new();
    let mut k: usize = 0;
    proof {
        assert(input@.take(0int) =~= Seq::<i64>::empty());
    }
    while k < n
        invariant
            0 <= k <= n,
            n == input@.len(),
            res@ =~= sort_asc(input@.take(k as int)),
        decreases n - k,
    {
        let x = input[k];
        proof {
            assert(input@.take(k + 1).drop_last() =~= input@.take(k as int));
            assert(input@.take(k + 1).last() == input@[k as int]);
        }
        let m = res.len();
        let mut p: usize = 0;
        while p < m && res[p] <= x
            invariant
                0 <= p <= m,
                m == res@.len(),
                forall|j: int| 0 <= j < p ==> #[trigger] res@[j] <= x,
            decreases m - p,
        {
            p += 1;
        }
        proof {
            lemma_insert_asc_at(x, res@, p as int);
        }
        res.insert(p, x);
        k += 1;
    }
    proof {
        assert(input@.take(n as int) =~= input@);
    }
    res
}

/// The truncated average of two scores, computed without signed division.
fn trunc_avg_exec(a: i64, b: i64) -> (r: i64)
    ensures
        r == trunc_avg(a as int, b as int),
{
    let sum: i128 = (a as i128) + (b as i128);
    if sum >= 0 {
        ((sum as u128) / 2) as i64
    } else {
        let x: u128 = ((-sum) as u128) / 2;
        let neg: i128 = -(x as i128);
        neg as i64
    }
}

/// The median score of a nonempty batch.
pub fn median_score(scores: &Vec<i64>) -> (r: i64)
    requires
        scores@.len() > 0,
    ensures
        r == median_of(scores@),
{
    let sorted = sort_scores(scores);
    let n = sorted.len();
    if n % 2 == 1 {
        sorted[n / 2]
    } else {
        trunc_avg_exec(sorted[n / 2 - 1], sorted[n / 2])
    }
}

/// Marks each address with whether its score reaches the batch median,
/// keeping the batch order. The reference point is the median of the whole
/// nonempty batch.
pub fn top_half_results(scores: Vec<AddressData>) -> (r: Vec<TopHalfEntry>)
    requires
        scores@.len() > 0,
    ensures
        r@.len() == scores@.len(),
        forall|i: int|
            0 <= i < scores@.len() ==> (#[trigger] r@[i]).address@ == scores@[i].address@
                && r@[i].is_top_half == (scores@[i].score >= median_of(
                scores@.map_values(|d: AddressData| d.score),
            )),
{
    let n = scores.len();
    let mut vals: Vec<i64> = Vec::new();
    let mut k: usize = 0;
    while k < n
        invariant
            0 <= k <= n,
            n == scores@.len(),
            vals@ =~= scores@.take(k as int).map_values(|d: AddressData| d.score),
        decreases n - k,
    {
        vals.push(scores[k].score);
        proof {
            assert(scores@.take(k + 1).map_values(|d: AddressData| d.score) =~= scores@.take(
                k as int,
            ).map_values(|d: AddressData| d.score).push(scores@[k as int].score));
        }
        k += 1;
    }
    proof {
        assert(scores@.take(n as int) =~= scores@);
    }
    let median = median_score(&vals);
    let mut rest = scores;
    let ghost all = rest@;
    let mut out: Vec<TopHalfEntry> = Vec::new();
    let mut i: usize = 0;
    while i < n
        invariant
            0 <= i <= n,
            n == all.len(),
            rest@ =~= all.skip(i as int),
            median == median_of(all.map_values(|d: AddressData| d.score)),
            out@.len() == i,
            forall|j: int|
                0 <= j < i ==> (#[trigger] out@[j]).address@ == all[j].address@
                    && out@[j].is_top_half == (all[j].score >= median),
        decreases n - i,
    {
        let d = rest.remove(0);
        proof {
            assert(all.skip(i as int)[0] == all[i as int]);
            assert(all.skip(i as int).subrange(1, all.skip(i as int).len() as int) =~= all.skip(
                i + 1,
            ));
        }
        let flag = d.score >= median;
        out.push(TopHalfEntry { address: d.address, is_top_half: flag });
        i += 1;
    }
    out
}

} // verus!
