use vstd::prelude::*;
use crate::addr::{Addr, addr_eq, is_zero, is_zero_addr, zero_addr};
use crate::errors::EngineError;
use crate::fees::{net_of, split_fee};
use crate::token::TokenPort;

verus! {

/// One recorded wager. `amount` is net of the protocol fee.
#[derive(Clone, Copy, Debug)]
pub struct Bet {
    pub bettor: Addr,
    pub selected_address: Addr,
    pub position: bool,
    pub amount: u64,
}

/// The parimutuel settlement engine: one betting round's roster, ledger and
/// per-candidate pools, plus the per-principal nonce registry that outlives
/// rounds.
pub struct AddressLogger {
    pub window_active: bool,
    pub valid_addresses: Vec<Addr>,
    pub bets: Vec<Bet>,
    pub operator: Addr,
    pub treasury: Addr,
    pub address_up_amounts: Vec<u128>,
    pub address_down_amounts: Vec<u128>,
    pub token_address: Addr,
    pub nonces: Vec<(Addr, u64)>,
}

/// The nonce stored for address `a`: the value of its entry, or zero when no
/// entry exists. Later entries win, though well-formed engines never hold two
/// entries for one address.
pub open spec fn assoc_nonce(s: Seq<(Addr, u64)>, a: Seq<u8>) -> u64
    decreases s.len(),
{
    if s.len() == 0 {
        0u64
    } else if s.last().0@ == a {
        s.last().1
    } else {
        assoc_nonce(s.drop_last(), a)
    }
}

/// `i` is the index of the first roster slot holding address `a`.
pub open spec fn is_first_match(roster: Seq<Addr>, a: Seq<u8>, i: int) -> bool {
    &&& 0 <= i < roster.len()
    &&& roster[i]@ == a
    &&& forall|j: int| 0 <= j < i ==> roster[j]@ != a
}

/// Address `a` appears somewhere in the roster.
pub open spec fn roster_contains(roster: Seq<Addr>, a: Seq<u8>) -> bool {
    exists|i: int| 0 <= i < roster.len() && roster[i]@ == a
}

/// Sum of the net amounts of all recorded bets on address `a` and side `pos`.
pub open spec fn side_sum(bets: Seq<Bet>, a: Seq<u8>, pos: bool) -> int
    decreases bets.len(),
{
    if bets.len() == 0 {
        0
    } else {
        side_sum(bets.drop_last(), a, pos) + if bets.last().selected_address@ == a
            && bets.last().position == pos {
            bets.last().amount as int
        } else {
            0
        }
    }
}

/// Appending one bet adds its net amount to exactly the sum for its own
/// address and side, and leaves every other sum as it was.
pub proof fn lemma_side_sum_push(bets: Seq<Bet>, b: Bet, a: Seq<u8>, pos: bool)
    ensures
        side_sum(bets.push(b), a, pos) == side_sum(bets, a, pos) + if b.selected_address@ == a
            && b.position == pos {
            b.amount as int
        } else {
            0
        },
{
    assert(bets.push(b).drop_last() =~= bets);
    assert(bets.push(b).last() == b);
}

/// Overwriting the one entry that holds a key changes the stored nonce for
/// that key and no other, provided keys are unique.
pub proof fn lemma_assoc_update(s: Seq<(Addr, u64)>, i: int, e: (Addr, u64), b: Seq<u8>)
    requires
        0 <= i < s.len(),
        forall|p: int, q: int| 0 <= p < q < s.len() ==> s[p].0@ != s[q].0@,
        s[i].0@ == e.0@,
    ensures
        assoc_nonce(s.update(i, e), b) == if b == e.0@ {
            e.1
        } else {
            assoc_nonce(s, b)
        },
    decreases s.len(),
{
    let t = s.update(i, e);
    if i == s.len() - 1 {
        assert(t.drop_last() =~= s.drop_last());
        assert(t.last() == e);
    } else {
        assert(t.last() == s.last());
        assert(s[i].0@ != s[s.len() - 1].0@);
        if b == s.last().0@ {
        } else {
            assert(t.drop_last() =~= s.drop_last().update(i, e));
            lemma_assoc_update(s.drop_last(), i, e, b);
        }
    }
}

/// Appending an entry for a fresh key changes the stored nonce for that key
/// and no other.
pub proof fn lemma_assoc_push(s: Seq<(Addr, u64)>, e: (Addr, u64), b: Seq<u8>)
    ensures
        assoc_nonce(s.push(e), b) == if b == e.0@ {
            e.1
        } else {
            assoc_nonce(s, b)
        },
{
    assert(s.push(e).drop_last() =~= s);
    assert(s.push(e).last() == e);
}

impl AddressLogger {
    /// Structural well-formedness: the three per-candidate columns are index
    /// aligned and the nonce registry holds one entry per address.
    pub open spec fn wf(self) -> bool {
        &&& self.valid_addresses@.len() == self.address_up_amounts@.len()
        &&& self.valid_addresses@.len() == self.address_down_amounts@.len()
        &&& forall|i: int, j: int|
            0 <= i < j < self.nonces@.len() ==> self.nonces@[i].0@ != self.nonces@[j].0@
    }

    /// The pools say exactly what the ledger says: each first-occurrence slot
    /// carries the sum of the net amounts wagered on its address and side, and
    /// every duplicate slot carries zero. Establishing a fresh round and
    /// placing bets preserve this; it is what the settlement arithmetic rests
    /// on.
    pub open spec fn slot_consistent(self, i: int) -> bool {
        let a = self.valid_addresses@[i]@;
        if is_first_match(self.valid_addresses@, a, i) {
            self.address_up_amounts@[i] == side_sum(self.bets@, a, true)
                && self.address_down_amounts@[i] == side_sum(self.bets@, a, false)
        } else {
            self.address_up_amounts@[i] == 0 && self.address_down_amounts@[i] == 0
        }
    }

    pub open spec fn pools_consistent(self) -> bool {
        forall|i: int|
            0 <= i < self.valid_addresses@.len() ==> #[trigger] self.slot_consistent(i)
    }

    /// The nonce currently stored for address `a` (zero before any signed bet).
    pub open spec fn nonce_of(self, a: Seq<u8>) -> u64 {
        assoc_nonce(self.nonces@, a)
    }

    /// The three principals that only `init` writes are the same in `self`
    /// and `other`.
    pub open spec fn same_principals(self, other: Self) -> bool {
        &&& self.operator@ == other.operator@
        &&& self.treasury@ == other.treasury@
        &&& self.token_address@ == other.token_address@
    }

    /// All fields that only `init` writes, plus the nonce registry, are the
    /// same in `self` and `other`.
    pub open spec fn same_config(self, other: Self) -> bool {
        &&& self.same_principals(other)
        &&& self.nonces@ == other.nonces@
    }

    /// The roster, both pool columns and the ledger are the same in `self`
    /// and `other`.
    pub open spec fn same_round_state(self, other: Self) -> bool {
        &&& self.valid_addresses@ == other.valid_addresses@
        &&& self.address_up_amounts@ == other.address_up_amounts@
        &&& self.address_down_amounts@ == other.address_down_amounts@
        &&& self.bets@ == other.bets@
    }

    /// Nothing at all differs between `self` and `other`.
    pub open spec fn unchanged(self, other: Self) -> bool {
        &&& self.same_config(other)
        &&& self.same_round_state(other)
        &&& self.window_active == other.window_active
    }

    /// A fresh, uninitialized engine: no operator, no roster, no bets.
    pub fn new() -> (r: Self)
        ensures
            r.wf(),
            r.pools_consistent(),
            is_zero_addr(r.operator),
            is_zero_addr(r.treasury),
            is_zero_addr(r.token_address),
            !r.window_active,
            r.valid_addresses@.len() == 0,
            r.bets@.len() == 0,
            r.nonces@.len() == 0,
    {
        AddressLogger {
            window_active: false,
            valid_addresses: Vec::new(),
            bets: Vec::new(),
            operator: zero_addr(),
            treasury: zero_addr(),
            address_up_amounts: Vec::new(),
            address_down_amounts: Vec::new(),
            token_address: zero_addr(),
            nonces: Vec::new(),
        }
    }

    /// Sets the three configured principals, exactly once: fails with
    /// `AlreadyInitialized` whenever the operator is already non-zero.
    pub fn init(&mut self, operator: Addr, treasury: Addr, token: Addr) -> (r: Result<
        (),
        EngineError,
    >)
        requires
            old(self).wf(),
        ensures
            final(self).wf(),
            !is_zero_addr(old(self).operator) ==> r == Err::<(), EngineError>(
                EngineError::AlreadyInitialized,
            ) && final(self).unchanged(*old(self)),
            is_zero_addr(old(self).operator) ==> {
                &&& r == Ok::<(), EngineError>(())
                &&& final(self).operator@ == operator@
                &&& final(self).treasury@ == treasury@
                &&& final(self).token_address@ == token@
                &&& !final(self).window_active
                &&& final(self).same_round_state(*old(self))
                &&& final(self).nonces@ == old(self).nonces@
            },
            old(self).pools_consistent() ==> final(self).pools_consistent(),
    {
        if !is_zero(&self.operator) {
            return Err(EngineError::AlreadyInitialized);
        }
        self.operator = operator;
        self.treasury = treasury;
        self.token_address = token;
        self.window_active = false;
        proof {
            if old(self).pools_consistent() {
                assert forall|i: int|
                    0 <= i < self.valid_addresses@.len() implies #[trigger] self.slot_consistent(
                    i,
                ) by {
                    assert(old(self).slot_consistent(i));
                };
            }
        }
        Ok(())
    }

    /// Opens a betting window for the given roster: replaces the candidate
    /// list wholesale and zero-fills both pool columns, discarding whatever
    /// the previous round left there. Only the operator may call this, and
    /// only while no window is open.
    pub fn start_betting_window(&mut self, caller: &Addr, addresses: Vec<Addr>) -> (r: Result<
        (),
        EngineError,
    >)
        requires
            old(self).wf(),
        ensures
            final(self).wf(),
            caller@ != old(self).operator@ ==> r == Err::<(), EngineError>(
                EngineError::NotAuthorized,
            ) && final(self).unchanged(*old(self)),
            caller@ == old(self).operator@ && old(self).window_active ==> r == Err::<(),
                EngineError,
            >(EngineError::WindowAlreadyActive) && final(self).unchanged(*old(self)),
            caller@ == old(self).operator@ && !old(self).window_active ==> {
                &&& r == Ok::<(), EngineError>(())
                &&& final(self).window_active
                &&& final(self).valid_addresses@ == addresses@
                &&& final(self).address_up_amounts@ =~= Seq::new(addresses@.len(), |i: int| 0u128)
                &&& final(self).address_down_amounts@ =~= Seq::new(addresses@.len(), |i: int| 0u128)
                &&& final(self).bets@ == old(self).bets@
                &&& final(self).same_config(*old(self))
            },
            caller@ == old(self).operator@ && !old(self).window_active && old(self).bets@.len()
                == 0 ==> final(self).pools_consistent(),
    {
        if !addr_eq(caller, &self.operator) {
            return Err(EngineError::NotAuthorized);
        }
        if self.window_active {
            return Err(EngineError::WindowAlreadyActive);
        }
        let n = addresses.len();
        let mut ups: Vec<u128> = Vec::new();
        let mut downs: Vec<u128> = Vec::new();
        let mut i: usize = 0;
        while i < n
            invariant
                0 <= i <= n,
                ups@ =~= Seq::new(i as nat, |k: int| 0u128),
                downs@ =~= Seq::new(i as nat, |k: int| 0u128),
            decreases n - i,
        {
            ups.push(0);
            downs.push(0);
            i += 1;
        }
        self.valid_addresses = addresses;
        self.address_up_amounts = ups;
        self.address_down_amounts = downs;
        self.window_active = true;
        proof {
            if old(self).bets@.len() == 0 {
                assert forall|k: int|
                    0 <= k < self.valid_addresses@.len() implies #[trigger] self.slot_consistent(
                    k,
                ) by {
                    assert(side_sum(self.bets@, self.valid_addresses@[k]@, true) == 0);
                    assert(side_sum(self.bets@, self.valid_addresses@[k]@, false) == 0);
                };
            }
        }
        Ok(())
    }

    /// Closes the open betting window. Bets and pools are kept for the
    /// settlement engine; only the lifecycle flag changes.
    pub fn close_betting_window(&mut self, caller: &Addr) -> (r: Result<(), EngineError>)
        requires
            old(self).wf(),
        ensures
            final(self).wf(),
            caller@ != old(self).operator@ ==> r == Err::<(), EngineError>(
                EngineError::NotAuthorized,
            ) && final(self).unchanged(*old(self)),
            caller@ == old(self).operator@ && !old(self).window_active ==> r == Err::<(),
                EngineError,
            >(EngineError::NoActiveWindow) && final(self).unchanged(*old(self)),
            caller@ == old(self).operator@ && old(self).window_active ==> {
                &&& r == Ok::<(), EngineError>(())
                &&& !final(self).window_active
                &&& final(self).same_round_state(*old(self))
                &&& final(self).same_config(*old(self))
            },
            old(self).pools_consistent() ==> final(self).pools_consistent(),
    {
        if !addr_eq(caller, &self.operator) {
            return Err(EngineError::NotAuthorized);
        }
        if !self.window_active {
            return Err(EngineError::NoActiveWindow);
        }
        self.window_active = false;
        proof {
            if old(self).pools_consistent() {
                assert forall|i: int|
                    0 <= i < self.valid_addresses@.len() implies #[trigger] self.slot_consistent(
                    i,
                ) by {
                    assert(old(self).slot_consistent(i));
                };
            }
        }
        Ok(())
    }

    /// The stored nonce for an address; zero until its first signed bet.
    pub fn get_nonce(&self, addr: &Addr) -> (r: u64)
        ensures
            r == self.nonce_of(addr@),
    {
        let n = self.nonces.len();
        proof {
            assert(self.nonces@.take(n as int) =~= self.nonces@);
        }
        let mut i: usize = n;
        while i > 0
            invariant
                0 <= i <= n,
                n == self.nonces@.len(),
                assoc_nonce(self.nonces@.take(i as int), addr@) == self.nonce_of(addr@),
            decreases i,
        {
            i -= 1;
            proof {
                assert(self.nonces@.take(i + 1).drop_last() =~= self.nonces@.take(i as int));
                assert(self.nonces@.take(i + 1).last() == self.nonces@[i as int]);
            }
            if addr_eq(&self.nonces[i].0, addr) {
                return self.nonces[i].1;
            }
        }
        proof {
            assert(self.nonces@.take(0) =~= Seq::<(Addr, u64)>::empty());
        }
        0
    }

    /// Whether a betting window is currently open.
    pub fn get_window_active(&self) -> (r: bool)
        ensures
            r == self.window_active,
    {
        self.window_active
    }

    /// The recorded bet at `index`, or `IndexOutOfBounds` past the ledger's
    /// end.
    pub fn get_bet(&self, index: usize) -> (r: Result<(Addr, Addr, bool, u64), EngineError>)
        ensures
            index < self.bets@.len() ==> r == Ok::<(Addr, Addr, bool, u64), EngineError>(
                (
                    self.bets@[index as int].bettor,
                    self.bets@[index as int].selected_address,
                    self.bets@[index as int].position,
                    self.bets@[index as int].amount,
                ),
            ),
            index >= self.bets@.len() ==> r == Err::<(Addr, Addr, bool, u64), EngineError>(
                EngineError::IndexOutOfBounds,
            ),
    {
        if index >= self.bets.len() {
            return Err(EngineError::IndexOutOfBounds);
        }
        let b = &self.bets[index];
        Ok((b.bettor, b.selected_address, b.position, b.amount))
    }

    /// How many bets the ledger holds.
    pub fn get_bet_count(&self) -> (r: usize)
        ensures
            r == self.bets@.len(),
    {
        self.bets.len()
    }

    /// Whether `address` is in the current roster.
    pub fn is_valid_address(&self, address: &Addr) -> (r: bool)
        ensures
            r == roster_contains(self.valid_addresses@, address@),
    {
        let n = self.valid_addresses.len();
        let mut i: usize = 0;
        while i < n
            invariant
                0 <= i <= n,
                n == self.valid_addresses@.len(),
                forall|j: int| 0 <= j < i ==> self.valid_addresses@[j]@ != address@,
            decreases n - i,
        {
            if addr_eq(&self.valid_addresses[i], address) {
                return true;
            }
            i += 1;
        }
        false
    }

    /// The first roster slot holding `address`, if any.
    pub fn first_roster_index(&self, address: &Addr) -> (r: Option<usize>)
        ensures
            match r {
                Some(i) => is_first_match(self.valid_addresses@, address@, i as int),
                None => !roster_contains(self.valid_addresses@, address@),
            },
    {
        let n = self.valid_addresses.len();
        let mut i: usize = 0;
        while i < n
            invariant
                0 <= i <= n,
                n == self.valid_addresses@.len(),
                forall|j: int| 0 <= j < i ==> self.valid_addresses@[j]@ != address@,
            decreases n - i,
        {
            if addr_eq(&self.valid_addresses[i], address) {
                return Some(i);
            }
            i += 1;
        }
        None
    }

    /// `post` is `pre` with one wager recorded: the bet, net of its fee, is
    /// appended to the ledger and the same net amount is added to the pool of
    /// the first roster slot holding the chosen address, on the chosen side.
    /// Says nothing about the nonce registry.
    pub open spec fn bet_recorded(
        pre: Self,
        post: Self,
        bettor: Addr,
        selected_address: Addr,
        position: bool,
        amount: u64,
    ) -> bool {
        &&& post.window_active == pre.window_active
        &&& post.same_principals(pre)
        &&& post.valid_addresses@ == pre.valid_addresses@
        &&& post.bets@ =~= pre.bets@.push(
            Bet { bettor, selected_address, position, amount: net_of(amount) as u64 },
        )
        &&& forall|i: int|
            is_first_match(pre.valid_addresses@, selected_address@, i) ==> if position {
                post.address_up_amounts@ =~= pre.address_up_amounts@.update(
                    i,
                    (pre.address_up_amounts@[i] + net_of(amount)) as u128,
                ) && post.address_down_amounts@ =~= pre.address_down_amounts@
            } else {
                post.address_down_amounts@ =~= pre.address_down_amounts@.update(
                    i,
                    (pre.address_down_amounts@[i] + net_of(amount)) as u128,
                ) && post.address_up_amounts@ =~= pre.address_up_amounts@
            }
    }

    /// `bet_recorded`, with the nonce registry untouched: what a direct
    /// `place_bet` call does.
    pub open spec fn places_bet(
        pre: Self,
        post: Self,
        bettor: Addr,
        selected_address: Addr,
        position: bool,
        amount: u64,
    ) -> bool {
        &&& Self::bet_recorded(pre, post, bettor, selected_address, position, amount)
        &&& post.nonces@ == pre.nonces@
    }

    /// `bet_recorded`, with exactly the bettor's stored nonce advanced to
    /// `nonce + 1`: what a successful signed bet does.
    pub open spec fn places_signed_bet(
        pre: Self,
        post: Self,
        bettor: Addr,
        selected_address: Addr,
        position: bool,
        amount: u64,
        nonce: u64,
    ) -> bool {
        &&& Self::bet_recorded(pre, post, bettor, selected_address, position, amount)
        &&& post.nonce_of(bettor@) == nonce + 1
        &&& forall|b: Seq<u8>| b != bettor@ ==> post.nonce_of(b) == pre.nonce_of(b)
    }

    /// Records a wager while a window is open and the chosen address is in
    /// the roster. The gross amount is pulled from the bettor after checking
    /// the allowance, the fee is forwarded to the treasury, and only the net
    /// remainder is staked. Whatever the value-transfer collaborator decides,
    /// the engine's own state either takes the whole bet or none of it.
    pub fn place_bet<T: TokenPort>(
        &mut self,
        token: &mut T,
        bettor: Addr,
        selected_address: Addr,
        position: bool,
        amount: u64,
    ) -> (r: Result<(), EngineError>)
        requires
            old(self).wf(),
            old(self).window_active ==> forall|i: int|
                is_first_match(old(self).valid_addresses@, selected_address@, i) ==> (if position {
                    old(self).address_up_amounts@[i]
                } else {
                    old(self).address_down_amounts@[i]
                }) + amount <= u128::MAX,
        ensures
            final(self).wf(),
            old(self).pools_consistent() ==> final(self).pools_consistent(),
            r == Err::<(), EngineError>(EngineError::NoActiveWindow) <==> !old(self).window_active,
            r == Err::<(), EngineError>(EngineError::InvalidCandidate) <==> old(self).window_active
                && !roster_contains(old(self).valid_addresses@, selected_address@),
            r is Err ==> final(self).unchanged(*old(self)),
            r == Err::<(), EngineError>(EngineError::InsufficientAllowance) ==> old(self).window_active && roster_contains(old(self).valid_addresses@, selected_address@),
            r == Err::<(), EngineError>(EngineError::TransferFailed) ==> old(self).window_active
                && roster_contains(old(self).valid_addresses@, selected_address@),
            r is Ok ==> old(self).window_active && roster_contains(
                old(self).valid_addresses@,
                selected_address@,
            ) && Self::places_bet(
                *old(self),
                *final(self),
                bettor,
                selected_address,
                position,
                amount,
            ),
            r is Ok || r == Err::<(), EngineError>(EngineError::NoActiveWindow) || r == Err::<
                (),
                EngineError,
            >(EngineError::InvalidCandidate) || r == Err::<(), EngineError>(
                EngineError::InsufficientAllowance,
            ) || r == Err::<(), EngineError>(EngineError::TransferFailed),
    {
        if !self.window_active {
            return Err(EngineError::NoActiveWindow);
        }
        let idx: usize = match self.first_roster_index(&selected_address) {
            Some(i) => i,
            None => {
                return Err(EngineError::InvalidCandidate);
            },
        };
        let allowance = token.allowance(&bettor);
        if allowance < amount as u128 {
            return Err(EngineError::InsufficientAllowance);
        }
        let (fee, net) = split_fee(amount);
        if !token.transfer_from(&bettor, amount as u128) {
            return Err(EngineError::TransferFailed);
        }
        if !token.transfer(&self.treasury, fee as u128) {
            return Err(EngineError::TransferFailed);
        }
        let bet = Bet { bettor, selected_address, position, amount: net };
        self.bets.push(bet);
        if position {
            let cur = self.address_up_amounts[idx];
            self.address_up_amounts.set(idx, cur + net as u128);
        } else {
            let cur = self.address_down_amounts[idx];
            self.address_down_amounts.set(idx, cur + net as u128);
        }
        proof {
            let pre = *old(self);
            let cand = selected_address@;
            assert forall|i: int|
                is_first_match(pre.valid_addresses@, cand, i) implies i == idx as int by {
                if i < idx as int {
                    assert(pre.valid_addresses@[i]@ != cand);
                } else if i > idx as int {
                    assert(pre.valid_addresses@[idx as int]@ != cand);
                }
            };
            if pre.pools_consistent() {
                assert forall|i: int|
                    0 <= i < self.valid_addresses@.len() implies #[trigger] self.slot_consistent(
                    i,
                ) by {
                    assert(pre.slot_consistent(i));
                    let a = pre.valid_addresses@[i]@;
                    lemma_side_sum_push(pre.bets@, bet, a, true);
                    lemma_side_sum_push(pre.bets@, bet, a, false);
                    assert(self.bets@ =~= pre.bets@.push(bet));
                }
            }
        }
        Ok(())
    }

    /// Stores `value` as the nonce of `addr`, touching no other entry and
    /// nothing else in the engine.
    #[verifier::loop_isolation(false)]
    pub(crate) fn set_nonce(&mut self, addr: &Addr, value: u64)
        requires
            old(self).wf(),
        ensures
            final(self).wf(),
            final(self).nonce_of(addr@) == value,
            forall|b: Seq<u8>| b != addr@ ==> final(self).nonce_of(b) == old(self).nonce_of(b),
            final(self).same_principals(*old(self)),
            final(self).same_round_state(*old(self)),
            final(self).window_active == old(self).window_active,
            old(self).pools_consistent() ==> final(self).pools_consistent(),
    {
        let n = self.nonces.len();
        let mut i: usize = 0;
        while i < n
            invariant
                0 <= i <= n,
                *self == *old(self),
                n == self.nonces@.len(),
                forall|j: int| 0 <= j < i ==> self.nonces@[j].0@ != addr@,
            decreases n - i,
        {
            if addr_eq(&self.nonces[i].0, addr) {
                let ghost s0 = self.nonces@;
                self.nonces.set(i, (*addr, value));
                proof {
                    assert(self.nonces@[i as int].0@ == s0[i as int].0@);
                    assert forall|b: Seq<u8>| true implies assoc_nonce(self.nonces@, b) == if b
                        == addr@ {
                        value
                    } else {
                        assoc_nonce(s0, b)
                    } by {
                        lemma_assoc_update(s0, i as int, (*addr, value), b);
                    };
                    if old(self).pools_consistent() {
                        assert forall|k: int|
                            0 <= k < self.valid_addresses@.len() implies #[trigger] self.slot_consistent(
                            k,
                        ) by {
                            assert(old(self).slot_consistent(k));
                        };
                    }
                }
                return ;
            }
            i += 1;
        }
        let ghost s0 = self.nonces@;
        self.nonces.push((*addr, value));
        proof {
            assert forall|b: Seq<u8>| true implies assoc_nonce(self.nonces@, b) == if b == addr@ {
                value
            } else {
                assoc_nonce(s0, b)
            } by {
                lemma_assoc_push(s0, (*addr, value), b);
            };
            if old(self).pools_consistent() {
                assert forall|k: int|
                    0 <= k < self.valid_addresses@.len() implies #[trigger] self.slot_consistent(
                    k,
                ) by {
                    assert(0 <= k < old(self).valid_addresses@.len());
                    assert(old(self).slot_consistent(k));
                    assert(self.bets@ == old(self).bets@);
                    assert(self.valid_addresses@ == old(self).valid_addresses@);
                    assert(self.address_up_amounts@ == old(self).address_up_amounts@);
                    assert(self.address_down_amounts@ == old(self).address_down_amounts@);
                };
            }
        }
    }

    /// The configured operator.
    pub fn get_operator(&self) -> (r: Addr)
        ensures
            r@ == self.operator@,
    {
        self.operator
    }

    /// The configured fee recipient.
    pub fn get_treasury(&self) -> (r: Addr)
        ensures
            r@ == self.treasury@,
    {
        self.treasury
    }

    /// The configured value-transfer collaborator.
    pub fn get_token(&self) -> (r: Addr)
        ensures
            r@ == self.token_address@,
    {
        self.token_address
    }

    /// The up-side pool for roster slot `addr_index`, or
    /// `InvalidCandidateIndex` past the roster's end.
    pub fn get_up_amount(&self, addr_index: usize) -> (r: Result<u128, EngineError>)
        requires
            self.wf(),
        ensures
            addr_index < self.valid_addresses@.len() ==> r == Ok::<u128, EngineError>(
                self.address_up_amounts@[addr_index as int],
            ),
            addr_index >= self.valid_addresses@.len() ==> r == Err::<u128, EngineError>(
                EngineError::InvalidCandidateIndex,
            ),
    {
        if addr_index >= self.valid_addresses.len() {
            return Err(EngineError::InvalidCandidateIndex);
        }
        Ok(self.address_up_amounts[addr_index])
    }

    /// The down-side pool for roster slot `addr_index`, or
    /// `InvalidCandidateIndex` past the roster's end.
    pub fn get_down_amount(&self, addr_index: usize) -> (r: Result<u128, EngineError>)
        requires
            self.wf(),
        ensures
            addr_index < self.valid_addresses@.len() ==> r == Ok::<u128, EngineError>(
                self.address_down_amounts@[addr_index as int],
            ),
            addr_index >= self.valid_addresses@.len() ==> r == Err::<u128, EngineError>(
                EngineError::InvalidCandidateIndex,
            ),
    {
        if addr_index >= self.valid_addresses.len() {
            return Err(EngineError::InvalidCandidateIndex);
        }
        Ok(self.address_down_amounts[addr_index])
    }
}

} // verus!
