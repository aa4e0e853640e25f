use vstd::prelude::*;
use vstd::arithmetic::div_mod::{
    lemma_fundamental_div_mod, lemma_div_is_ordered, lemma_div_pos_is_pos,
    lemma_div_multiples_vanish, lemma_hoist_over_denominator, lemma_multiply_divide_le,
    lemma_mod_pos_bound,
};
use vstd::arithmetic::mul::{lemma_mul_inequality, lemma_mul_nonnegative};
use crate::addr::{Addr, addr_eq};
use crate::engine::{AddressLogger, Bet, side_sum};
use crate::errors::EngineError;
use crate::token::TokenPort;

verus! {

/// Fixed-point scale used to keep precision across the two truncating
/// divisions of the proportional-payout formula.
pub const PAYOUT_SCALE: u64 = 1_000_000;

/// The scaled share of the winning pool held by one winning bet:
/// `floor(net * SCALE / winning_pool)`.
pub open spec fn proportion_of(net: int, winning_pool: int) -> int {
    (net * (PAYOUT_SCALE as int)) / winning_pool
}

/// The slice of the losing pool granted on top of a winning stake:
/// `floor(losing_pool * proportion / SCALE)`.
pub open spec fn winnings_of(net: int, winning_pool: int, losing_pool: int) -> int {
    (losing_pool * proportion_of(net, winning_pool)) / (PAYOUT_SCALE as int)
}

/// What a winning bettor receives: the stake back plus the winnings.
pub open spec fn payout_of(net: int, winning_pool: int, losing_pool: int) -> int {
    net + winnings_of(net, winning_pool, losing_pool)
}

/// The transfers owed to the winners of one contested slot, in ledger order:
/// one per recorded bet on address `a` and side `win`.
pub open spec fn slot_payouts(bets: Seq<Bet>, a: Seq<u8>, win: bool, w: int, l: int) -> Seq<
    (Seq<u8>, int),
>
    decreases bets.len(),
{
    if bets.len() == 0 {
        Seq::empty()
    } else {
        let pre = slot_payouts(bets.drop_last(), a, win, w, l);
        let b = bets.last();
        if b.selected_address@ == a && b.position == win {
            pre.push((b.bettor@, payout_of(b.amount as int, w, l)))
        } else {
            pre
        }
    }
}

/// The transfers owed for roster slot `i`: the whole combined pool to the
/// treasury when either side is empty (and nothing when both are), otherwise
/// the proportional payouts to that slot's winners.
pub open spec fn slot_plan(state: AddressLogger, winners: Seq<bool>, i: int) -> Seq<
    (Seq<u8>, int),
> {
    let up = state.address_up_amounts@[i] as int;
    let down = state.address_down_amounts@[i] as int;
    if up == 0 || down == 0 {
        if up + down > 0 {
            seq![(state.treasury@, up + down)]
        } else {
            Seq::empty()
        }
    } else {
        let w = if winners[i] {
            up
        } else {
            down
        };
        let l = if winners[i] {
            down
        } else {
            up
        };
        slot_payouts(state.bets@, state.valid_addresses@[i]@, winners[i], w, l)
    }
}

/// All transfers owed by settlement, slot by slot, for the first `upto`
/// roster slots.
pub open spec fn settlement_plan(state: AddressLogger, winners: Seq<bool>, upto: int) -> Seq<
    (Seq<u8>, int),
>
    decreases upto,
{
    if upto <= 0 {
        Seq::empty()
    } else {
        settlement_plan(state, winners, upto - 1) + slot_plan(state, winners, upto - 1)
    }
}

/// A transfer list as recipients and mathematical amounts.
pub open spec fn plan_view(v: Seq<(Addr, u128)>) -> Seq<(Seq<u8>, int)> {
    v.map_values(|p: (Addr, u128)| (p.0@, p.1 as int))
}

/// A side's pool can only be empty when no recorded bet feeds it.
pub proof fn lemma_side_sum_nonneg(bets: Seq<Bet>, a: Seq<u8>, pos: bool)
    ensures
        side_sum(bets, a, pos) >= 0,
    decreases bets.len(),
{
    if bets.len() > 0 {
        lemma_side_sum_nonneg(bets.drop_last(), a, pos);
    }
}

/// Each single stake is at most the whole pool it feeds.
pub proof fn lemma_bet_le_side_sum(bets: Seq<Bet>, a: Seq<u8>, pos: bool, j: int)
    requires
        0 <= j < bets.len(),
        bets[j].selected_address@ == a,
        bets[j].position == pos,
    ensures
        bets[j].amount as int <= side_sum(bets, a, pos),
    decreases bets.len(),
{
    if j == bets.len() - 1 {
        lemma_side_sum_nonneg(bets.drop_last(), a, pos);
    } else {
        lemma_bet_le_side_sum(bets.drop_last(), a, pos, j);
    }
}

/// Both pools of one address together stay below the ledger length times the
/// largest single stake.
pub proof fn lemma_side_sums_bounded(bets: Seq<Bet>, a: Seq<u8>)
    ensures
        side_sum(bets, a, true) + side_sum(bets, a, false) <= bets.len() * (u64::MAX as int),
    decreases bets.len(),
{
    if bets.len() > 0 {
        lemma_side_sums_bounded(bets.drop_last(), a);
        assert((bets.len() - 1) * (u64::MAX as int) + (u64::MAX as int) == bets.len() * (
        u64::MAX as int)) by (nonlinear_arith);
    }
}

/// Truncating division distributes over a sum no worse than splitting it:
/// `a/d + b/d <= (a+b)/d`.
pub proof fn lemma_div_subadd(a: int, b: int, d: int)
    requires
        0 <= a,
        0 <= b,
        0 < d,
    ensures
        a / d + b / d <= (a + b) / d,
{
    lemma_fundamental_div_mod(a, d);
    lemma_fundamental_div_mod(b, d);
    lemma_mod_pos_bound(a, d);
    lemma_mod_pos_bound(b, d);
    lemma_hoist_over_denominator(a % d + b % d, a / d + b / d, d as nat);
    assert((a / d + b / d) * d == d * (a / d) + d * (b / d)) by (nonlinear_arith);
    lemma_div_pos_is_pos(a % d + b % d, d);
}

/// The two-stage truncating payout arithmetic, decomposed so it can be
/// computed without leaving 128 bits: with `q = l / SCALE` and
/// `r = l % SCALE`, the winnings equal `q * p + (r * p) / SCALE`, and they
/// never exceed the losing pool.
pub proof fn lemma_winnings_decompose(net: int, w: int, l: int)
    requires
        1 <= w,
        0 <= l,
        0 <= net <= w,
    ensures
        0 <= proportion_of(net, w) <= PAYOUT_SCALE as int,
        0 <= winnings_of(net, w, l) <= l,
        winnings_of(net, w, l) == (l / (PAYOUT_SCALE as int)) * proportion_of(net, w) + ((l % (
        PAYOUT_SCALE as int)) * proportion_of(net, w)) / (PAYOUT_SCALE as int),
        (l / (PAYOUT_SCALE as int)) * proportion_of(net, w) <= l,
        0 <= (l % (PAYOUT_SCALE as int)) * proportion_of(net, w) <= (PAYOUT_SCALE as int) * (
        PAYOUT_SCALE as int),
{
    let s = PAYOUT_SCALE as int;
    let p = proportion_of(net, w);
    lemma_mul_nonnegative(net, s);
    lemma_div_pos_is_pos(net * s, w);
    lemma_mul_inequality(net, w, s);
    lemma_multiply_divide_le(net * s, w, s);
    assert(w * s == s * w) by (nonlinear_arith);
    // p is now known to satisfy 0 <= p <= s.
    let q = l / s;
    let r = l % s;
    lemma_fundamental_div_mod(l, s);
    lemma_mod_pos_bound(l, s);
    lemma_div_pos_is_pos(l, s);
    // l == s * q + r, 0 <= r < s, q >= 0.
    assert(l * p == (q * p) * s + r * p) by (nonlinear_arith)
        requires
            l == s * q + r,
    ;
    lemma_mul_nonnegative(r, p);
    lemma_mul_nonnegative(q, p);
    lemma_hoist_over_denominator(r * p, q * p, s as nat);
    // (r*p)/s + q*p == (r*p + (q*p)*s)/s == (l*p)/s == winnings_of.
    assert(l * p == p * l) by (nonlinear_arith);
    // Bound: q*p <= q*s <= l and (r*p)/s <= r.
    lemma_mul_inequality(p, s, q);
    assert(p * q == q * p && s * q == q * s) by (nonlinear_arith);
    lemma_mul_inequality(p, s, r);
    assert(p * r == r * p && s * r == r * s) by (nonlinear_arith);
    lemma_multiply_divide_le(r * p, s, r);
    lemma_div_pos_is_pos(r * p, s);
    lemma_mul_inequality(r, s, s);
}

/// The total amount moved by a transfer list.
pub open spec fn amounts_total(plan: Seq<(Seq<u8>, int)>) -> int
    decreases plan.len(),
{
    if plan.len() == 0 {
        0
    } else {
        amounts_total(plan.drop_last()) + plan.last().1
    }
}

/// The sum of the scaled proportions of all winning bets of one slot.
pub open spec fn props_total(bets: Seq<Bet>, a: Seq<u8>, win: bool, w: int) -> int
    decreases bets.len(),
{
    if bets.len() == 0 {
        0
    } else {
        props_total(bets.drop_last(), a, win, w) + if bets.last().selected_address@ == a
            && bets.last().position == win {
            proportion_of(bets.last().amount as int, w)
        } else {
            0
        }
    }
}

/// Every scaled proportion is nonnegative, so their running sum is too.
pub proof fn lemma_props_total_nonneg(bets: Seq<Bet>, a: Seq<u8>, win: bool, w: int)
    requires
        1 <= w,
    ensures
        props_total(bets, a, win, w) >= 0,
    decreases bets.len(),
{
    if bets.len() > 0 {
        lemma_props_total_nonneg(bets.drop_last(), a, win, w);
        let b = bets.last();
        if b.selected_address@ == a && b.position == win {
            lemma_mul_nonnegative(b.amount as int, PAYOUT_SCALE as int);
            lemma_div_pos_is_pos((b.amount as int) * (PAYOUT_SCALE as int), w);
        }
    }
}

/// Because each truncation only loses, the proportions of a slot sum to no
/// more than the scaled pool ratio: `props_total <= (side_sum * SCALE) / w`.
pub proof fn lemma_props_total_le(bets: Seq<Bet>, a: Seq<u8>, win: bool, w: int)
    requires
        1 <= w,
    ensures
        props_total(bets, a, win, w) <= (side_sum(bets, a, win) * (PAYOUT_SCALE as int)) / w,
    decreases bets.len(),
{
    let s = PAYOUT_SCALE as int;
    if bets.len() == 0 {
    } else {
        let pre = bets.drop_last();
        let b = bets.last();
        lemma_props_total_le(pre, a, win, w);
        lemma_side_sum_nonneg(pre, a, win);
        if b.selected_address@ == a && b.position == win {
            let sum0 = side_sum(pre, a, win);
            lemma_mul_nonnegative(sum0, s);
            lemma_mul_nonnegative(b.amount as int, s);
            lemma_div_subadd(sum0 * s, (b.amount as int) * s, w);
            assert((sum0 + b.amount as int) * s == sum0 * s + (b.amount as int) * s)
                by (nonlinear_arith);
        }
    }
}

/// The payouts of one slot are bounded by the winning stakes plus the scaled
/// slice of the losing pool that their summed proportions claim.
pub proof fn lemma_slot_payouts_le(bets: Seq<Bet>, a: Seq<u8>, win: bool, w: int, l: int)
    requires
        1 <= w,
        0 <= l,
    ensures
        amounts_total(slot_payouts(bets, a, win, w, l)) <= side_sum(bets, a, win) + (l
            * props_total(bets, a, win, w)) / (PAYOUT_SCALE as int),
    decreases bets.len(),
{
    let s = PAYOUT_SCALE as int;
    if bets.len() == 0 {
    } else {
        let pre = bets.drop_last();
        let b = bets.last();
        lemma_slot_payouts_le(pre, a, win, w, l);
        if b.selected_address@ == a && b.position == win {
            let plan0 = slot_payouts(pre, a, win, w, l);
            let pay = payout_of(b.amount as int, w, l);
            assert(plan0.push((b.bettor@, pay)).drop_last() =~= plan0);
            let p0 = props_total(pre, a, win, w);
            let pb = proportion_of(b.amount as int, w);
            lemma_props_total_nonneg(pre, a, win, w);
            lemma_mul_nonnegative(b.amount as int, s);
            lemma_div_pos_is_pos((b.amount as int) * s, w);
            lemma_mul_nonnegative(l, p0);
            lemma_mul_nonnegative(l, pb);
            lemma_div_subadd(l * p0, l * pb, s);
            assert(l * (p0 + pb) == l * p0 + l * pb) by (nonlinear_arith);
        }
    }
}

/// No slot ever pays out more than it took in: the payouts of a contested
/// slot stay within the winning pool plus the losing pool, the two-stage
/// truncating division never creating value.
pub proof fn lemma_slot_payout_conservation(bets: Seq<Bet>, a: Seq<u8>, win: bool, w: int, l: int)
    requires
        w == side_sum(bets, a, win),
        1 <= w,
        0 <= l,
    ensures
        amounts_total(slot_payouts(bets, a, win, w, l)) <= w + l,
{
    let s = PAYOUT_SCALE as int;
    lemma_props_total_le(bets, a, win, w);
    lemma_slot_payouts_le(bets, a, win, w, l);
    let pt = props_total(bets, a, win, w);
    lemma_props_total_nonneg(bets, a, win, w);
    // props_total <= (w * s) / w == s.
    lemma_div_multiples_vanish(s, w);
    assert(w * s == s * w) by (nonlinear_arith);
    // (l * props_total) / s <= (l * s) / s == l.
    lemma_mul_inequality(pt, s, l);
    assert(pt * l == l * pt && s * l == l * s) by (nonlinear_arith);
    lemma_div_is_ordered(l * pt, l * s, s);
    lemma_div_multiples_vanish(l, s);
    assert(l * s == s * l) by (nonlinear_arith);
}

/// One attempted settlement transfer: who was owed what, and whether the
/// value-transfer collaborator reported success. A failed delivery is
/// surfaced here but neither rolls back earlier transfers nor keeps the
/// ledger from clearing.
#[derive(Clone, Copy, Debug)]
pub struct TransferOutcome {
    pub recipient: Addr,
    pub amount: u128,
    pub delivered: bool,
}

/// The attempted transfers as recipients and mathematical amounts.
pub open spec fn outcomes_view(v: Seq<TransferOutcome>) -> Seq<(Seq<u8>, int)> {
    v.map_values(|t: TransferOutcome| (t.recipient@, t.amount as int))
}

impl AddressLogger {
    /// Computes the full settlement transfer list for the given verdicts,
    /// slot by slot in roster order, without touching any state: degenerate
    /// slots route their combined pool to the treasury, contested slots pay
    /// each winning bet its stake plus its proportional slice of the losing
    /// pool.
    #[verifier::loop_isolation(false)]
    pub fn settlement_transfers(&self, winners: &Vec<bool>) -> (r: Vec<(Addr, u128)>)
        requires
            self.wf(),
            self.pools_consistent(),
            winners@.len() == self.valid_addresses@.len(),
        ensures
            plan_view(r@) =~= settlement_plan(*self, winners@, self.valid_addresses@.len() as int),
    {
        let n = self.valid_addresses.len();
        let nbets = self.bets.len();
        let mut res: Vec<(Addr, u128)> = Vec::new();
        let mut i: usize = 0;
        while i < n
            invariant
                0 <= i <= n,
                plan_view(res@) =~= settlement_plan(*self, winners@, i as int),
            decreases n - i,
        {
            let up = self.address_up_amounts[i];
            let down = self.address_down_amounts[i];
            if up == 0 || down == 0 {
                let total = up + down;
                if total > 0 {
                    res.push((self.treasury, total));
                }
            } else {
                proof {
                    assert(self.slot_consistent(i as int));
                }
                let a = self.valid_addresses[i];
                let win = winners[i];
                let w: u128 = if win {
                    up
                } else {
                    down
                };
                let l: u128 = if win {
                    down
                } else {
                    up
                };
                proof {
                    assert(w == side_sum(self.bets@, a@, win));
                    lemma_side_sums_bounded(self.bets@, a@);
                    assert(nbets * (u64::MAX as int) <= (u64::MAX as int) * (u64::MAX as int))
                        by (nonlinear_arith)
                        requires
                            0 <= nbets <= u64::MAX as int,
                    ;
                    assert(self.bets@.take(0int) =~= Seq::<Bet>::empty());
                }
                let mut j: usize = 0;
                while j < nbets
                    invariant
                        0 <= j <= nbets,
                        plan_view(res@) =~= settlement_plan(*self, winners@, i as int)
                            + slot_payouts(
                            self.bets@.take(j as int),
                            a@,
                            win,
                            w as int,
                            l as int,
                        ),
                    decreases nbets - j,
                {
                    proof {
                        assert(self.bets@.take(j + 1).drop_last() =~= self.bets@.take(j as int));
                        assert(self.bets@.take(j + 1).last() == self.bets@[j as int]);
                    }
                    let b = self.bets[j];
                    if addr_eq(&b.selected_address, &a) && b.position == win {
                        proof {
                            lemma_bet_le_side_sum(self.bets@, a@, win, j as int);
                            lemma_winnings_decompose(b.amount as int, w as int, l as int);
                            assert((b.amount as int) * (PAYOUT_SCALE as int) <= (u64::MAX as int)
                                * (PAYOUT_SCALE as int)) by (nonlinear_arith)
                                requires
                                    0 <= b.amount as int <= u64::MAX as int,
                            ;
                        }
                        let prop: u128 = ((b.amount as u128) * (PAYOUT_SCALE as u128)) / w;
                        let q: u128 = l / (PAYOUT_SCALE as u128);
                        let rr: u128 = l % (PAYOUT_SCALE as u128);
                        let winnings: u128 = q * prop + (rr * prop) / (PAYOUT_SCALE as u128);
                        let payout: u128 = (b.amount as u128) + winnings;
                        let ghost res0 = res@;
                        res.push((b.bettor, payout));
                        proof {
                            assert(winnings as int == winnings_of(
                                b.amount as int,
                                w as int,
                                l as int,
                            ));
                            assert(res@ =~= res0.push((b.bettor, payout)));
                            assert(plan_view(res@) =~= plan_view(res0).push(
                                (b.bettor@, payout as int),
                            ));
                            assert(slot_payouts(self.bets@.take(j + 1), a@, win, w as int, l as int)
                                =~= slot_payouts(
                                self.bets@.take(j as int),
                                a@,
                                win,
                                w as int,
                                l as int,
                            ).push((b.bettor@, payout_of(b.amount as int, w as int, l as int))));
                        }
                    }
                    j += 1;
                }
                proof {
                    assert(self.bets@.take(nbets as int) =~= self.bets@);
                }
            }
            i += 1;
        }
        res
    }

    /// Settles the round: only the operator may call, the verdict list must
    /// match the roster slot for slot, and then every transfer of the
    /// settlement plan is attempted in order. Individual delivery failures
    /// are reported in the outcome list but stop nothing; the bet ledger is
    /// cleared unconditionally afterwards, while roster and pools stay for
    /// the next `start_betting_window` to reset.
    #[verifier::loop_isolation(false)]
    pub fn process_payouts<T: TokenPort>(
        &mut self,
        token: &mut T,
        caller: &Addr,
        winners: &Vec<bool>,
    ) -> (r: Result<Vec<TransferOutcome>, EngineError>)
        requires
            old(self).wf(),
            caller@ == old(self).operator@ && winners@.len() == old(
                self,
            ).valid_addresses@.len() ==> old(self).pools_consistent(),
        ensures
            final(self).wf(),
            caller@ == old(self).operator@ && winners@.len() == old(
                self,
            ).valid_addresses@.len() ==> r is Ok,
            caller@ != old(self).operator@ <==> r == Err::<Vec<TransferOutcome>, EngineError>(
                EngineError::NotAuthorized,
            ),
            caller@ == old(self).operator@ && winners@.len() != old(
                self,
            ).valid_addresses@.len() <==> r == Err::<Vec<TransferOutcome>, EngineError>(
                EngineError::LengthMismatch,
            ),
            r is Err ==> final(self).unchanged(*old(self)),
            match r {
                Ok(outcomes) => {
                    &&& outcomes_view(outcomes@) =~= settlement_plan(
                        *old(self),
                        winners@,
                        old(self).valid_addresses@.len() as int,
                    )
                    &&& final(self).bets@.len() == 0
                    &&& final(self).valid_addresses@ == old(self).valid_addresses@
                    &&& final(self).address_up_amounts@ == old(self).address_up_amounts@
                    &&& final(self).address_down_amounts@ == old(self).address_down_amounts@
                    &&& final(self).same_config(*old(self))
                    &&& final(self).window_active == old(self).window_active
                },
                Err(_) => true,
            },
    {
        if !addr_eq(caller, &self.operator) {
            return Err(EngineError::NotAuthorized);
        }
        if winners.len() != self.valid_addresses.len() {
            return Err(EngineError::LengthMismatch);
        }
        let plan = self.settlement_transfers(winners);
        let n = plan.len();
        let mut outcomes: Vec<TransferOutcome> = Vec::new();
        let mut k: usize = 0;
        while k < n
            invariant
                0 <= k <= n,
                outcomes_view(outcomes@) =~= plan_view(plan@.take(k as int)),
            decreases n - k,
        {
            let (recipient, amount) = plan[k];
            let delivered = token.transfer(&recipient, amount);
            let ghost o0 = outcomes@;
            outcomes.push(TransferOutcome { recipient, amount, delivered });
            proof {
                assert(plan@.take(k + 1).drop_last() =~= plan@.take(k as int));
                assert(outcomes_view(outcomes@) =~= outcomes_view(o0).push(
                    (recipient@, amount as int),
                ));
                assert(plan_view(plan@.take(k + 1)) =~= plan_view(plan@.take(k as int)).push(
                    (recipient@, amount as int),
                ));
            }
            k += 1;
        }
        self.bets.clear();
        proof {
            assert(plan@.take(n as int) =~= plan@);
        }
        Ok(outcomes)
    }
}

} // verus!
