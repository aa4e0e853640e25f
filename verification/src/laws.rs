use vstd::prelude::*;
use crate::addr::Addr;
use crate::engine::{AddressLogger, is_first_match, side_sum};
use crate::errors::EngineError;
use crate::fees::{FEE_PERCENTAGE, fee_of, net_of};
use crate::settle::{
    amounts_total, lemma_slot_payout_conservation, lemma_side_sum_nonneg, slot_plan,
};

verus! {

/// Law: splitting any gross amount is exact and deterministic. The fee is
/// `floor(amount * FEE_PERCENTAGE / 100)`, the net stake is the rest, and
/// the two always recombine to the amount.
pub proof fn lemma_fee_determinism(amount: u64)
    ensures
        net_of(amount) + fee_of(amount) == amount,
        fee_of(amount) == (amount * FEE_PERCENTAGE) / 100,
        0 <= fee_of(amount) <= amount,
        0 <= net_of(amount) <= amount,
{
    assert(0 <= (amount * FEE_PERCENTAGE) / 100 <= amount) by (nonlinear_arith)
        requires
            FEE_PERCENTAGE == 10,
            amount >= 0,
    ;
}

/// Law: a successful signed bet advances the bettor's stored nonce, so an
/// authorization carrying the consumed nonce is rejected as `InvalidNonce`
/// on any later, unexpired resubmission — whatever tuple or signature it
/// carries. `place_bet_with_signature`'s contract turns this verdict into
/// the call's result and leaves every part of the state unchanged, and a
/// resubmission meets that contract with no further assumption: its
/// pool-headroom clause only binds when the carried nonce is the stored
/// one, which a consumed nonce no longer is.
pub proof fn lemma_replay_rejection(
    pre: AddressLogger,
    post: AddressLogger,
    bettor: Addr,
    selected_address: Addr,
    position: bool,
    amount: u64,
    nonce: u64,
    selected_address2: Addr,
    position2: bool,
    amount2: u64,
    deadline2: u64,
    sig2: Seq<u8>,
    now2: u64,
)
    requires
        AddressLogger::places_signed_bet(
            pre,
            post,
            bettor,
            selected_address,
            position,
            amount,
            nonce,
        ),
        now2 <= deadline2,
    ensures
        post.auth_decision(
            bettor,
            selected_address2,
            position2,
            amount2,
            nonce,
            deadline2,
            sig2,
            now2,
        ) == Err::<(), EngineError>(EngineError::InvalidNonce),
{
    assert(post.nonce_of(bettor@) == nonce + 1);
}

/// Law: an authorization whose deadline lies strictly before the current
/// time fails as `SignatureExpired`, whatever the signature or the stored
/// nonce.
pub proof fn lemma_expiry(
    state: AddressLogger,
    bettor: Addr,
    selected_address: Addr,
    position: bool,
    amount: u64,
    nonce: u64,
    deadline: u64,
    sig: Seq<u8>,
    now: u64,
)
    requires
        now > deadline,
    ensures
        state.auth_decision(bettor, selected_address, position, amount, nonce, deadline, sig, now)
            == Err::<(), EngineError>(EngineError::SignatureExpired),
{
}

/// Law: a slot with stakes on only one side is degenerate. Settlement routes
/// its whole pool to the treasury — one transfer, no bettor paid — whichever
/// verdict the slot was given.
pub proof fn lemma_degenerate_slot(state: AddressLogger, winners: Seq<bool>, i: int)
    requires
        0 <= i < state.valid_addresses@.len(),
        state.address_down_amounts@[i] == 0,
        state.address_up_amounts@[i] > 0,
    ensures
        slot_plan(state, winners, i) =~= seq![
            (state.treasury@, state.address_up_amounts@[i] as int),
        ],
{
}

/// Law: a contested slot never distributes more than it took in. The
/// payouts of slot `i` total at most its up pool plus its down pool: the
/// two truncating divisions can only lose value, never create it.
pub proof fn lemma_payout_conservation(state: AddressLogger, winners: Seq<bool>, i: int)
    requires
        state.wf(),
        state.pools_consistent(),
        0 <= i < state.valid_addresses@.len(),
        state.address_up_amounts@[i] > 0,
        state.address_down_amounts@[i] > 0,
    ensures
        amounts_total(slot_plan(state, winners, i)) <= state.address_up_amounts@[i]
            + state.address_down_amounts@[i],
{
    let a = state.valid_addresses@[i]@;
    assert(state.slot_consistent(i));
    assert(is_first_match(state.valid_addresses@, a, i));
    let up = state.address_up_amounts@[i] as int;
    let down = state.address_down_amounts@[i] as int;
    if winners[i] {
        lemma_slot_payout_conservation(state.bets@, a, true, up, down);
    } else {
        lemma_slot_payout_conservation(state.bets@, a, false, down, up);
    }
}

} // verus!
