use auction::{AccountId, AmountError, Auction, Event, Ledger};

fn acct(b: u8) -> AccountId {
    AccountId::new([b; 32])
}

fn always_paid(_to: AccountId, _amount: u128) -> bool {
    true
}

fn never_paid(_to: AccountId, _amount: u128) -> bool {
    false
}

fn ledger_sum(a: &Auction, who: &[AccountId]) -> u128 {
    who.iter().map(|p| a.balance_of(p)).sum()
}

#[test]
fn default_works() {
    let auction = Auction::default(acct(1), 0);
    assert_eq!(auction.get_highest_bid(), 0);
    assert_eq!(auction.is_ended(), false);
    assert_eq!(auction.ledger().len(), 1);
    assert_eq!(auction.get_current_asking_price(), 0);
}

#[test]
fn new_works() {
    let auction = Auction::new(acct(1), 5, 60, 0);
    assert_eq!(auction.get_starting_price(), 5);
}

#[test]
fn getters_works() {
    let auction = Auction::default(acct(1), 0);
    assert_eq!(auction.get_highest_bid(), auction.get_current_asking_price());
    assert_eq!(acct(1), auction.get_highest_bidder());
}

#[test]
fn end_works() {
    let mut auction = Auction::default(acct(1), 0);
    assert!(auction.end(&acct(1), 0));
    assert!(auction.is_ended());
    assert!(!auction.end(&acct(1), 0));
}

#[test]
fn scenario_bid_end_withdraw() {
    let (ben, a, b, c) = (acct(1), acct(2), acct(3), acct(4));
    let mut auction = Auction::new(ben, 5, 60, 1000);
    assert_eq!(auction.bid(&a, 6), Ok(true));
    assert_eq!(auction.get_highest_bid(), 6);
    assert_eq!(auction.get_highest_bidder(), a);
    assert_eq!(auction.bid(&b, 7), Ok(true));
    assert_eq!(auction.balance_of(&a), 6);
    assert_eq!(auction.get_highest_bid(), 7);
    assert_eq!(auction.bid(&c, 5), Ok(false));
    assert_eq!(auction.balance_of(&c), 5);
    assert!(auction.end(&ben, 1010));
    assert_eq!(auction.balance_of(&ben), 7);
    assert!(auction.withdraw(&a, |to, amount| to == acct(2) && amount == 6));
    assert_eq!(auction.balance_of(&a), 0);
    assert_eq!(auction.get_contract_balance(), 12);
}

#[test]
fn end_by_other_only_after_deadline() {
    let (ben, other) = (acct(1), acct(2));
    let mut auction = Auction::new(ben, 0, 60, 100);
    assert_eq!(auction.get_end_time(), 160);
    assert!(!auction.end(&other, 160));
    assert!(!auction.is_ended());
    assert_eq!(
        auction.events().last(),
        Some(&Event::NotAuthorizedToEnd { caller: other, beneficiary: ben })
    );
    assert!(auction.end(&other, 161));
    assert!(auction.is_ended());
}

#[test]
fn value_is_conserved_over_a_run() {
    let (ben, a, b, c) = (acct(1), acct(2), acct(3), acct(4));
    let who = [ben, a, b, c];
    let mut auction = Auction::new(ben, 10, 60, 0);
    let mut deposited: u128 = 0;
    let mut withdrawn: u128 = 0;
    for (p, amount) in [(a, 11), (b, 9), (c, 30), (a, 30), (b, 31), (c, 12)] {
        auction.bid(&p, amount).unwrap();
        deposited += amount;
        assert_eq!(
            ledger_sum(&auction, &who) + auction.get_highest_bid(),
            deposited - withdrawn
        );
    }
    assert!(auction.withdraw(&a, always_paid));
    withdrawn += 41;
    assert_eq!(ledger_sum(&auction, &who) + auction.get_highest_bid(), deposited - withdrawn);
    assert!(auction.end(&ben, 0));
    assert_eq!(ledger_sum(&auction, &who), deposited - withdrawn);
    assert_eq!(auction.get_contract_balance(), deposited - withdrawn);
}

#[test]
fn highest_bid_never_decreases() {
    let mut auction = Auction::new(acct(1), 0, 60, 0);
    let mut last = auction.get_highest_bid();
    for amount in [3u128, 1, 8, 8, 2, 20] {
        auction.bid(&acct(2), amount).unwrap();
        assert!(auction.get_highest_bid() >= last);
        last = auction.get_highest_bid();
    }
    assert_eq!(last, 20);
    assert!(auction.end(&acct(1), 0));
    assert!(!auction.end(&acct(1), 0));
    assert!(auction.is_ended());
}

#[test]
fn low_bids_are_credited_and_change_nothing() {
    let (ben, a, b) = (acct(1), acct(2), acct(3));
    let mut auction = Auction::new(ben, 5, 60, 0);
    assert_eq!(auction.bid(&b, 5), Ok(false));
    assert_eq!(
        auction.events().last(),
        Some(&Event::BidRejectedBelowStart { bidder: b, amount: 5, starting_price: 5 })
    );
    assert_eq!(auction.bid(&a, 9), Ok(true));
    assert_eq!(auction.bid(&b, 9), Ok(false));
    assert_eq!(
        auction.events().last(),
        Some(&Event::BidRejectedBelowHighest {
            bidder: b,
            amount: 9,
            highest_bidder: a,
            highest_bid: 9
        })
    );
    assert_eq!(auction.get_highest_bidder(), a);
    assert_eq!(auction.get_highest_bid(), 9);
    assert_eq!(auction.balance_of(&b), 14);
}

#[test]
fn higher_bid_credits_previous_bidder_on_top() {
    let (ben, a, b) = (acct(1), acct(2), acct(3));
    let mut auction = Auction::new(ben, 0, 60, 0);
    assert_eq!(auction.bid(&a, 4), Ok(true));
    assert_eq!(auction.bid(&a, 2), Ok(false));
    assert_eq!(auction.balance_of(&a), 2);
    assert_eq!(auction.bid(&b, 10), Ok(true));
    assert_eq!(auction.balance_of(&a), 6);
    assert_eq!(auction.get_highest_bidder(), b);
    assert_eq!(
        auction.events().last(),
        Some(&Event::NewHighestBid { previous_bidder: a, previous_bid: 4, bidder: b, bid: 10 })
    );
}

#[test]
fn withdraw_twice_pays_once() {
    let mut auction = Auction::new(acct(1), 0, 60, 0);
    auction.bid(&acct(2), 3).unwrap();
    auction.bid(&acct(3), 4).unwrap();
    assert!(auction.withdraw(&acct(2), always_paid));
    assert_eq!(auction.balance_of(&acct(2)), 0);
    assert!(!auction.withdraw(&acct(2), always_paid));
    assert_eq!(
        auction.events().last(),
        Some(&Event::Withdrawal { account: acct(2), amount: 3 })
    );
}

#[test]
fn failed_transfer_restores_balance() {
    let mut auction = Auction::new(acct(1), 0, 60, 0);
    auction.bid(&acct(2), 3).unwrap();
    auction.bid(&acct(3), 4).unwrap();
    let events_before = auction.events().len();
    assert!(!auction.withdraw(&acct(2), never_paid));
    assert_eq!(auction.balance_of(&acct(2)), 3);
    assert_eq!(auction.events().len(), events_before);
    assert_eq!(auction.get_contract_balance(), 7);
}

#[test]
fn withdraw_of_nothing_does_not_transfer() {
    let mut auction = Auction::new(acct(1), 0, 60, 0);
    assert!(!auction.withdraw(&acct(9), |_, _| panic!("no transfer expected")));
    assert_eq!(auction.ledger().len(), 1);
}

#[test]
fn bid_after_end_is_credited() {
    let mut auction = Auction::new(acct(1), 0, 60, 0);
    assert!(auction.end(&acct(1), 0));
    assert_eq!(auction.bid(&acct(2), 50), Ok(false));
    assert_eq!(auction.balance_of(&acct(2)), 50);
    assert_eq!(auction.get_highest_bid(), 0);
    assert_eq!(
        auction.events().last(),
        Some(&Event::BidRejectedAuctionEnded { bidder: acct(2), amount: 50 })
    );
}

#[test]
fn end_credits_beneficiary_on_top_of_balance() {
    let ben = acct(1);
    let mut auction = Auction::new(ben, 2, 60, 0);
    assert_eq!(auction.bid(&ben, 1), Ok(false));
    assert_eq!(auction.bid(&acct(2), 8), Ok(true));
    assert!(auction.end(&ben, 0));
    assert_eq!(auction.balance_of(&ben), 9);
    assert_eq!(
        auction.events().last(),
        Some(&Event::Ended { highest_bidder: acct(2), highest_bid: 8 })
    );
    assert!(!auction.end(&ben, 0));
    assert_eq!(
        auction.events().last(),
        Some(&Event::AlreadyEnded { highest_bidder: acct(2), highest_bid: 8 })
    );
}

#[test]
fn bid_that_would_overflow_is_refused() {
    let mut auction = Auction::new(acct(1), 0, 60, 0);
    assert_eq!(auction.bid(&acct(2), u128::MAX), Ok(true));
    assert_eq!(auction.bid(&acct(3), 1), Err(AmountError::Overflow));
    assert_eq!(auction.balance_of(&acct(3)), 0);
    assert_eq!(auction.get_highest_bid(), u128::MAX);
    assert_eq!(auction.events().len(), 2);
}

#[test]
fn creation_event_and_times() {
    let auction = Auction::new(acct(1), 7, 500, 1000);
    assert_eq!(
        auction.events().as_slice(),
        &[Event::Created {
            beneficiary: acct(1),
            starting_price: 7,
            created_time: 1000,
            end_time: 1500
        }]
    );
    assert_eq!(auction.get_created_time(), 1000);
    assert_eq!(auction.get_time_left(1200), 300);
    assert_eq!(auction.get_time_left(2000), 0);
    assert!(!auction.time_end_allowed(1500));
    assert!(auction.time_end_allowed(1501));
    let late = Auction::new(acct(1), 0, 10, u64::MAX - 5);
    assert_eq!(late.get_end_time(), u64::MAX);
}

#[test]
fn asking_price_is_the_larger() {
    let mut auction = Auction::new(acct(1), 5, 60, 0);
    assert_eq!(auction.get_current_asking_price(), 5);
    auction.bid(&acct(2), 8).unwrap();
    assert_eq!(auction.get_current_asking_price(), 8);
}

#[test]
fn ledger_operations() {
    let p = acct(5);
    let mut ledger = Ledger::new();
    assert_eq!(ledger.balance_of(&p), 0);
    assert_eq!(ledger.zero(&p), 0);
    assert_eq!(ledger.len(), 0);
    assert_eq!(ledger.credit(&p, 4), Ok(()));
    assert_eq!(ledger.credit(&p, 6), Ok(()));
    assert_eq!(ledger.balance_of(&p), 10);
    assert_eq!(ledger.credit(&p, u128::MAX), Err(AmountError::Overflow));
    assert_eq!(ledger.balance_of(&p), 10);
    assert_eq!(ledger.zero(&p), 10);
    assert_eq!(ledger.balance_of(&p), 0);
    assert_eq!(ledger.len(), 1);
    ledger.restore(&p, 10);
    assert_eq!(ledger.balance_of(&p), 10);
}

#[test]
fn account_identity_is_byte_equality() {
    let mut bytes = [7u8; 32];
    assert_eq!(AccountId::new(bytes), AccountId::new([7u8; 32]));
    bytes[31] = 8;
    assert_ne!(AccountId::new(bytes), AccountId::new([7u8; 32]));
    assert_eq!(AccountId::new(bytes).to_bytes(), bytes);
}
