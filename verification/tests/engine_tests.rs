use address_logger::engine::AddressLogger;
use address_logger::errors::EngineError;
use address_logger::token::TokenPort;

type Addr = [u8; 20];

fn addr(tag: u8) -> Addr {
    let mut a = [0u8; 20];
    a[19] = tag;
    a
}

struct FakeToken {
    allowance: u128,
    fail_transfer_from: bool,
    fail_transfer: bool,
    pulls: Vec<(Addr, u128)>,
    pays: Vec<(Addr, u128)>,
}

impl FakeToken {
    fn rich() -> Self {
        FakeToken {
            allowance: u128::MAX,
            fail_transfer_from: false,
            fail_transfer: false,
            pulls: Vec::new(),
            pays: Vec::new(),
        }
    }
}

impl TokenPort for FakeToken {
    fn allowance(&mut self, _owner: &Addr) -> u128 {
        self.allowance
    }

    fn transfer_from(&mut self, owner: &Addr, amount: u128) -> bool {
        if self.fail_transfer_from {
            return false;
        }
        self.pulls.push((*owner, amount));
        true
    }

    fn transfer(&mut self, recipient: &Addr, amount: u128) -> bool {
        if self.fail_transfer {
            return false;
        }
        self.pays.push((*recipient, amount));
        true
    }
}

fn ready_engine() -> AddressLogger {
    let mut e = AddressLogger::new();
    e.init(addr(1), addr(2), addr(3)).unwrap();
    e
}

#[test]
fn init_sets_principals_once() {
    let mut e = AddressLogger::new();
    assert!(!e.get_window_active());
    assert_eq!(e.init(addr(1), addr(2), addr(3)), Ok(()));
    assert_eq!(e.get_operator(), addr(1));
    assert_eq!(e.get_treasury(), addr(2));
    assert_eq!(e.get_token(), addr(3));
    assert_eq!(
        e.init(addr(7), addr(8), addr(9)),
        Err(EngineError::AlreadyInitialized)
    );
    assert_eq!(e.get_operator(), addr(1));
}

#[test]
fn window_lifecycle() {
    let mut e = ready_engine();
    let op = addr(1);
    let outsider = addr(9);
    assert_eq!(
        e.start_betting_window(&outsider, vec![addr(10)]),
        Err(EngineError::NotAuthorized)
    );
    assert_eq!(
        e.close_betting_window(&op),
        Err(EngineError::NoActiveWindow)
    );
    assert_eq!(e.start_betting_window(&op, vec![addr(10), addr(11)]), Ok(()));
    assert!(e.get_window_active());
    assert_eq!(
        e.start_betting_window(&op, vec![addr(12)]),
        Err(EngineError::WindowAlreadyActive)
    );
    assert_eq!(
        e.close_betting_window(&outsider),
        Err(EngineError::NotAuthorized)
    );
    assert_eq!(e.close_betting_window(&op), Ok(()));
    assert!(!e.get_window_active());
}

#[test]
fn place_bet_records_net_and_pays_fee() {
    let mut e = ready_engine();
    let mut t = FakeToken::rich();
    let op = addr(1);
    let bob = addr(20);
    let c1 = addr(10);
    e.start_betting_window(&op, vec![c1, addr(11)]).unwrap();
    assert_eq!(e.place_bet(&mut t, bob, c1, true, 1000), Ok(()));
    // The whole gross amount is pulled, the fee goes to the treasury.
    assert_eq!(t.pulls, vec![(bob, 1000)]);
    assert_eq!(t.pays, vec![(addr(2), 100)]);
    // The ledger holds the net amount.
    assert_eq!(e.get_bet_count(), 1);
    assert_eq!(e.get_bet(0), Ok((bob, c1, true, 900)));
    assert_eq!(e.get_bet(1), Err(EngineError::IndexOutOfBounds));
    assert_eq!(e.get_up_amount(0), Ok(900));
    assert_eq!(e.get_down_amount(0), Ok(0));
    assert_eq!(e.get_up_amount(1), Ok(0));
    assert_eq!(e.get_up_amount(2), Err(EngineError::InvalidCandidateIndex));
}

#[test]
fn place_bet_guards() {
    let mut e = ready_engine();
    let mut t = FakeToken::rich();
    let op = addr(1);
    let bob = addr(20);
    let c1 = addr(10);
    assert_eq!(
        e.place_bet(&mut t, bob, c1, true, 100),
        Err(EngineError::NoActiveWindow)
    );
    e.start_betting_window(&op, vec![c1]).unwrap();
    assert_eq!(
        e.place_bet(&mut t, bob, addr(99), true, 100),
        Err(EngineError::InvalidCandidate)
    );
    t.allowance = 99;
    assert_eq!(
        e.place_bet(&mut t, bob, c1, true, 100),
        Err(EngineError::InsufficientAllowance)
    );
    t.allowance = u128::MAX;
    t.fail_transfer_from = true;
    assert_eq!(
        e.place_bet(&mut t, bob, c1, true, 100),
        Err(EngineError::TransferFailed)
    );
    t.fail_transfer_from = false;
    t.fail_transfer = true;
    assert_eq!(
        e.place_bet(&mut t, bob, c1, true, 100),
        Err(EngineError::TransferFailed)
    );
    // Nothing was recorded by any failed attempt.
    assert_eq!(e.get_bet_count(), 0);
    assert_eq!(e.get_up_amount(0), Ok(0));
}

#[test]
fn roster_isolation_across_rounds() {
    // A candidate valid in an earlier round is rejected once the roster no
    // longer holds it.
    let mut e = ready_engine();
    let mut t = FakeToken::rich();
    let op = addr(1);
    let bob = addr(20);
    let c1 = addr(10);
    let c2 = addr(11);
    e.start_betting_window(&op, vec![c1]).unwrap();
    assert_eq!(e.place_bet(&mut t, bob, c1, true, 100), Ok(()));
    assert!(e.is_valid_address(&c1));
    e.close_betting_window(&op).unwrap();
    e.process_payouts(&mut t, &op, &vec![true]).unwrap();
    e.start_betting_window(&op, vec![c2]).unwrap();
    assert!(!e.is_valid_address(&c1));
    assert_eq!(
        e.place_bet(&mut t, bob, c1, true, 100),
        Err(EngineError::InvalidCandidate)
    );
}

#[test]
fn roster_reset_discards_stale_pools() {
    // Starting a new window zeroes the pools of the previous round even when
    // it was never settled.
    let mut e = ready_engine();
    let mut t = FakeToken::rich();
    let op = addr(1);
    let c1 = addr(10);
    let c2 = addr(11);
    e.start_betting_window(&op, vec![c1]).unwrap();
    e.place_bet(&mut t, addr(20), c1, true, 1000).unwrap();
    assert_eq!(e.get_up_amount(0), Ok(900));
    e.close_betting_window(&op).unwrap();
    e.start_betting_window(&op, vec![c2, c1]).unwrap();
    assert_eq!(e.get_up_amount(0), Ok(0));
    assert_eq!(e.get_up_amount(1), Ok(0));
    assert_eq!(e.get_down_amount(0), Ok(0));
    assert_eq!(e.get_down_amount(1), Ok(0));
}

#[test]
fn duplicate_candidates_accrue_on_first_slot() {
    let mut e = ready_engine();
    let mut t = FakeToken::rich();
    let op = addr(1);
    let c1 = addr(10);
    e.start_betting_window(&op, vec![c1, c1]).unwrap();
    e.place_bet(&mut t, addr(20), c1, true, 100).unwrap();
    assert_eq!(e.get_up_amount(0), Ok(90));
    assert_eq!(e.get_up_amount(1), Ok(0));
}

#[test]
fn full_round_scenario() {
    // init, open a two-slot window, one up bet of 1000 on the first slot,
    // close, settle: the first slot is one-sided so its 900 goes to the
    // treasury, the empty second slot moves nothing, and the ledger clears.
    let mut e = ready_engine();
    let mut t = FakeToken::rich();
    let op = addr(1);
    let treasury = addr(2);
    let bob = addr(20);
    let c1 = addr(10);
    let c2 = addr(11);
    e.start_betting_window(&op, vec![c1, c2]).unwrap();
    e.place_bet(&mut t, bob, c1, true, 1000).unwrap();
    assert_eq!(e.get_up_amount(0), Ok(900));
    assert_eq!(t.pays, vec![(treasury, 100)]);
    e.close_betting_window(&op).unwrap();
    let outcomes = e.process_payouts(&mut t, &op, &vec![true, true]).unwrap();
    assert_eq!(outcomes.len(), 1);
    assert_eq!(outcomes[0].recipient, treasury);
    assert_eq!(outcomes[0].amount, 900);
    assert!(outcomes[0].delivered);
    assert_eq!(t.pays, vec![(treasury, 100), (treasury, 900)]);
    assert_eq!(e.get_bet_count(), 0);
}

#[test]
fn process_payouts_guards() {
    let mut e = ready_engine();
    let mut t = FakeToken::rich();
    let op = addr(1);
    e.start_betting_window(&op, vec![addr(10), addr(11)]).unwrap();
    e.close_betting_window(&op).unwrap();
    assert_eq!(
        e.process_payouts(&mut t, &addr(9), &vec![true, true])
            .unwrap_err(),
        EngineError::NotAuthorized
    );
    assert_eq!(
        e.process_payouts(&mut t, &op, &vec![true]).unwrap_err(),
        EngineError::LengthMismatch
    );
    assert!(e.process_payouts(&mut t, &op, &vec![true, true]).is_ok());
}

#[test]
fn nonce_starts_at_zero() {
    let e = AddressLogger::new();
    assert_eq!(e.get_nonce(&addr(20)), 0);
}
