use vstd::prelude::*;

verus! {

/// Percentage of every gross wager that is deducted as a protocol fee.
pub const FEE_PERCENTAGE: u64 = 10;

/// The fee charged on a gross wager: one tenth, rounded down.
pub open spec fn fee_of(amount: u64) -> int {
    (amount * FEE_PERCENTAGE) / 100
}

/// The part of a gross wager that is actually staked, net of the fee.
pub open spec fn net_of(amount: u64) -> int {
    amount - fee_of(amount)
}

/// Splits a gross wager into the protocol fee and the net stake.
pub fn split_fee(amount: u64) -> (r: (u64, u64))
    ensures
        r.0 == fee_of(amount),
        r.1 == net_of(amount),
        r.0 + r.1 == amount,
{
    proof {
        assert((amount as u128) * (FEE_PERCENTAGE as u128) <= u64::MAX as u128 * 10)
            by (nonlinear_arith)
            requires
                amount <= u64::MAX,
                FEE_PERCENTAGE == 10,
        ;
    }
    let wide: u128 = ((amount as u128) * (FEE_PERCENTAGE as u128)) / 100;
    proof {
        assert(wide <= amount) by (nonlinear_arith)
            requires
                wide == ((amount as u128) * (FEE_PERCENTAGE as u128)) / 100,
        ;
    }
    let fee: u64 = wide as u64;
    (fee, amount - fee)
}

} // verus!
