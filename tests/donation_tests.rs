use auction::{AccountId, AmountError, Donation, DonationEvent};

fn acct(b: u8) -> AccountId {
    AccountId::new([b; 32])
}

#[test]
fn lib_default_works() {
    let donation = Donation::default(acct(1));
    assert_eq!(acct(1), donation.get_beneficiary());
    assert_eq!(acct(1), donation.get_largest_donor());
    assert_eq!(donation.get_largest_total_donation(), 0);
    assert_eq!(donation.get_pending_collection(), 0);
    assert_eq!(donation.donations().len(), 1);
}

#[test]
fn donations_add_up() {
    let mut d = Donation::new(acct(1), acct(1));
    assert_eq!(d.make_donation(&acct(2), 5), Ok(()));
    assert_eq!(d.make_donation(&acct(3), 4), Ok(()));
    assert_eq!(d.make_donation(&acct(2), 1), Ok(()));
    assert_eq!(d.get_total_raised(), 10);
    assert_eq!(d.get_pending_collection(), 10);
    assert_eq!(d.get_accounts_total_donations(&acct(2)), 6);
    assert_eq!(d.get_accounts_total_donations(&acct(3)), 4);
    assert_eq!(d.get_accounts_total_donations(&acct(9)), 0);
}

#[test]
fn largest_donor_is_tracked() {
    let mut d = Donation::new(acct(1), acct(7));
    assert_eq!(d.events()[0], DonationEvent::Created { beneficiary: acct(7) });
    d.make_donation(&acct(2), 5).unwrap();
    assert_eq!(d.get_largest_donor(), acct(2));
    assert_eq!(d.get_largest_total_donation(), 5);
    assert_eq!(
        d.events().last(),
        Some(&DonationEvent::NewLargestDonor {
            prev_largest_donor: acct(1),
            prev_largest_total_donation: 0,
            largest_donor: acct(2),
            largest_total_donation: 5
        })
    );
    d.make_donation(&acct(3), 5).unwrap();
    assert_eq!(d.get_largest_donor(), acct(2));
    assert_eq!(
        d.events().last(),
        Some(&DonationEvent::NewDonation { donor: acct(3), amount: 5 })
    );
    d.make_donation(&acct(2), 2).unwrap();
    assert_eq!(d.get_largest_total_donation(), 7);
    d.make_donation(&acct(3), 3).unwrap();
    assert_eq!(d.get_largest_donor(), acct(3));
    assert_eq!(d.get_largest_total_donation(), 8);
}

#[test]
fn only_beneficiary_collects() {
    let mut d = Donation::new(acct(1), acct(1));
    d.make_donation(&acct(2), 9).unwrap();
    assert!(!d.collect_pending_amount(&acct(2), |_, _| true));
    assert_eq!(d.get_pending_collection(), 9);
    assert_eq!(
        d.events().last(),
        Some(&DonationEvent::NotAuthorisedToWithdraw {
            sender: acct(2),
            beneficiary: acct(1),
            amount_attempted: 9
        })
    );
    assert!(d.collect_pending_amount(&acct(1), |to, amount| to == acct(1) && amount == 9));
    assert_eq!(d.get_pending_collection(), 0);
    assert_eq!(d.get_total_raised(), 9);
    assert_eq!(
        d.events().last(),
        Some(&DonationEvent::FundsCollected { beneficiary: acct(1), amount_withdrew: 9 })
    );
}

#[test]
fn failed_collection_keeps_pending() {
    let mut d = Donation::new(acct(1), acct(1));
    d.make_donation(&acct(2), 9).unwrap();
    let n = d.events().len();
    assert!(!d.collect_pending_amount(&acct(1), |_, _| false));
    assert_eq!(d.get_pending_collection(), 9);
    assert_eq!(d.events().len(), n);
}

#[test]
fn donation_that_would_overflow_is_refused() {
    let mut d = Donation::new(acct(1), acct(1));
    d.make_donation(&acct(2), u128::MAX - 1).unwrap();
    assert_eq!(d.make_donation(&acct(3), 2), Err(AmountError::Overflow));
    assert_eq!(d.get_total_raised(), u128::MAX - 1);
    assert_eq!(d.get_accounts_total_donations(&acct(3)), 0);
}
