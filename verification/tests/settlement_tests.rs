use address_logger::engine::AddressLogger;
use address_logger::fees::split_fee;
use address_logger::token::{TokenPort, from_token_amount, to_token_amount};

type Addr = [u8; 20];

fn addr(tag: u8) -> Addr {
    let mut a = [0u8; 20];
    a[19] = tag;
    a
}

struct FakeToken {
    pays: Vec<(Addr, u128)>,
}

impl TokenPort for FakeToken {
    fn allowance(&mut self, _owner: &Addr) -> u128 {
        u128::MAX
    }

    fn transfer_from(&mut self, _owner: &Addr, _amount: u128) -> bool {
        true
    }

    fn transfer(&mut self, recipient: &Addr, amount: u128) -> bool {
        self.pays.push((*recipient, amount));
        true
    }
}

struct StingyToken {
    attempts: Vec<(Addr, u128)>,
}

impl TokenPort for StingyToken {
    fn allowance(&mut self, _owner: &Addr) -> u128 {
        u128::MAX
    }

    fn transfer_from(&mut self, _owner: &Addr, _amount: u128) -> bool {
        true
    }

    fn transfer(&mut self, recipient: &Addr, amount: u128) -> bool {
        self.attempts.push((*recipient, amount));
        false
    }
}

fn round_with_bets(bets: &[(Addr, Addr, bool, u64)], roster: Vec<Addr>) -> (AddressLogger, FakeToken) {
    let mut e = AddressLogger::new();
    e.init(addr(1), addr(2), addr(3)).unwrap();
    let mut t = FakeToken { pays: Vec::new() };
    e.start_betting_window(&addr(1), roster).unwrap();
    for (bettor, candidate, position, amount) in bets {
        e.place_bet(&mut t, *bettor, *candidate, *position, *amount)
            .unwrap();
    }
    e.close_betting_window(&addr(1)).unwrap();
    t.pays.clear();
    (e, t)
}

#[test]
fn fee_split_exact_values() {
    assert_eq!(split_fee(1000), (100, 900));
    assert_eq!(split_fee(0), (0, 0));
    assert_eq!(split_fee(9), (0, 9));
    assert_eq!(split_fee(10), (1, 9));
    assert_eq!(split_fee(55), (5, 50));
    assert_eq!(split_fee(u64::MAX), (u64::MAX / 10, u64::MAX - u64::MAX / 10));
    let (fee, net) = split_fee(12345);
    assert_eq!(fee, 1234);
    assert_eq!(net + fee, 12345);
}

#[test]
fn degenerate_pool_goes_to_treasury() {
    // Only up-side stakes on the slot: the whole pool is routed to the
    // treasury and no bettor is paid, even though the up side "won".
    let c1 = addr(10);
    let (mut e, mut t) = round_with_bets(&[(addr(20), c1, true, 1000)], vec![c1]);
    let outcomes = e.process_payouts(&mut t, &addr(1), &vec![true]).unwrap();
    assert_eq!(outcomes.len(), 1);
    assert_eq!(outcomes[0].recipient, addr(2));
    assert_eq!(outcomes[0].amount, 900);
    assert_eq!(t.pays, vec![(addr(2), 900)]);
    assert_eq!(e.get_bet_count(), 0);
}

#[test]
fn proportional_payouts_conserve_the_pool() {
    // Net stakes: 60 and 40 up (gross 66 and 44), 50 down (gross 55).
    // With the up side winning: 60 + floor(50*floor(60*1000000/100)/1000000)
    // = 90 and 40 + 20 = 60; together exactly up + down = 150.
    let c1 = addr(10);
    let a = addr(20);
    let b = addr(21);
    let loser = addr(22);
    let (mut e, mut t) = round_with_bets(
        &[
            (a, c1, true, 66),
            (b, c1, true, 44),
            (loser, c1, false, 55),
        ],
        vec![c1],
    );
    assert_eq!(e.get_up_amount(0), Ok(100));
    assert_eq!(e.get_down_amount(0), Ok(50));
    let outcomes = e.process_payouts(&mut t, &addr(1), &vec![true]).unwrap();
    assert_eq!(t.pays, vec![(a, 90), (b, 60)]);
    assert_eq!(outcomes.len(), 2);
    let total: u128 = outcomes.iter().map(|o| o.amount).sum();
    assert_eq!(total, 150);
    assert_eq!(e.get_bet_count(), 0);
}

#[test]
fn down_side_can_win() {
    let c1 = addr(10);
    let up = addr(20);
    let down = addr(21);
    let (mut e, mut t) = round_with_bets(
        &[(up, c1, true, 110), (down, c1, false, 110)],
        vec![c1],
    );
    // 99 on each side; the down bettor takes stake plus the whole up pool.
    let _ = e.process_payouts(&mut t, &addr(1), &vec![false]).unwrap();
    assert_eq!(t.pays, vec![(down, 198)]);
}

#[test]
fn truncation_loses_but_never_creates_value() {
    // Nets: 34 and 67 up (gross 37 and 74), 100 down (gross 111). The
    // proportions do not divide evenly, so each winner loses a fraction to
    // truncation and the slot pays out less than it holds.
    let c1 = addr(10);
    let a = addr(20);
    let b = addr(21);
    let loser = addr(22);
    let (mut e, mut t) = round_with_bets(
        &[
            (a, c1, true, 37),
            (b, c1, true, 74),
            (loser, c1, false, 111),
        ],
        vec![c1],
    );
    assert_eq!(e.get_up_amount(0), Ok(34 + 67));
    assert_eq!(e.get_down_amount(0), Ok(100));
    let _ = e.process_payouts(&mut t, &addr(1), &vec![true]).unwrap();
    let total: u128 = t.pays.iter().map(|p| p.1).sum();
    // floor(34*1000000/101) = 336633; floor(100*336633/1000000) = 33.
    // floor(67*1000000/101) = 663366; floor(100*663366/1000000) = 66.
    assert_eq!(t.pays, vec![(a, 67), (b, 133)]);
    assert!(total <= 101 + 100);
    assert_eq!(total, 200);
}

#[test]
fn failed_deliveries_still_clear_the_ledger() {
    let c1 = addr(10);
    let (mut e, _t) = round_with_bets(&[(addr(20), c1, true, 1000)], vec![c1]);
    let mut stingy = StingyToken { attempts: Vec::new() };
    let outcomes = e.process_payouts(&mut stingy, &addr(1), &vec![true]).unwrap();
    assert_eq!(outcomes.len(), 1);
    assert!(!outcomes[0].delivered);
    assert_eq!(stingy.attempts, vec![(addr(2), 900)]);
    assert_eq!(e.get_bet_count(), 0);
}

#[test]
fn empty_slots_move_nothing() {
    let (mut e, mut t) = round_with_bets(&[], vec![addr(10), addr(11)]);
    let outcomes = e.process_payouts(&mut t, &addr(1), &vec![true, false]).unwrap();
    assert!(outcomes.is_empty());
    assert!(t.pays.is_empty());
}

#[test]
fn token_amount_conversions() {
    let unit: u128 = 1_000_000_000_000_000_000;
    assert_eq!(to_token_amount(0), 0);
    assert_eq!(to_token_amount(7), 7 * unit);
    assert_eq!(from_token_amount(7 * unit), 7);
    assert_eq!(from_token_amount(7 * unit + unit - 1), 7);
    assert_eq!(from_token_amount(unit - 1), 0);
}
