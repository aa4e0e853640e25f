use vstd::prelude::*;
use crate::addr::Addr;

verus! {

/// The external value-transfer ledger the engine instructs.
///
/// The engine itself never holds balances; it only asks this collaborator to
/// move amounts. Implementations live outside the verified library (an actual
/// token contract binding, or an in-memory ledger in tests), so nothing is
/// promised about the results: the engine's contracts state what holds of its
/// own state for every possible outcome.
pub trait TokenPort {
    /// How much `owner` has pre-authorized the engine's custody to pull.
    fn allowance(&mut self, owner: &Addr) -> u128;

    /// Pull `amount` from `owner` into the engine's custody; reports success.
    fn transfer_from(&mut self, owner: &Addr, amount: u128) -> bool;

    /// Pay `amount` out of the engine's custody to `recipient`; reports success.
    fn transfer(&mut self, recipient: &Addr, amount: u128) -> bool;
}

/// One whole token, in the token's smallest unit: eighteen decimals.
pub const TOKEN_UNIT: u128 = 1_000_000_000_000_000_000;

/// A user-facing whole-token amount as the token's smallest unit.
pub fn to_token_amount(amount: u64) -> (r: u128)
    ensures
        r == amount * TOKEN_UNIT,
{
    proof {
        assert((amount as int) * (TOKEN_UNIT as int) <= (u64::MAX as int) * (TOKEN_UNIT as int)
            <= u128::MAX) by (nonlinear_arith)
            requires
                amount <= u64::MAX,
        ;
    }
    (amount as u128) * TOKEN_UNIT
}

/// A smallest-unit amount in whole tokens, rounded down. The caller keeps
/// the amount below 2^64 whole tokens, as any real balance is.
pub fn from_token_amount(amount: u128) -> (r: u64)
    requires
        amount / TOKEN_UNIT <= u64::MAX,
    ensures
        r == amount / TOKEN_UNIT,
{
    (amount / TOKEN_UNIT) as u64
}

} // verus!
