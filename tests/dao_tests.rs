use auction::{AccountId, SimpleDao, VoteCast};

fn acct(b: u8) -> AccountId {
    AccountId::new([b; 32])
}

#[test]
fn should_have_one_voter_on_deploy() {
    let alice = AccountId::new([0x0; 32]);
    let contract = SimpleDao::deploy(alice);
    assert_eq!(contract.get_voter_count(), 1);
}

#[test]
fn should_register_voters() {
    let alice = AccountId::new([0x0; 32]);
    let mut contract = SimpleDao::deploy(alice);

    let bob = AccountId::new([0x01; 32]);
    contract.register(&bob);

    let charlie = AccountId::new([0x02; 32]);
    contract.register(&charlie);
    assert_eq!(contract.get_voter_count(), 3);
}

#[test]
fn should_create_and_vote_on_a_proposal() {
    let alice = AccountId::new([0x0; 32]);
    let mut contract = SimpleDao::deploy(alice);
    let descriptor = [0x09; 32];
    contract.create_proposal(descriptor);
    contract.vote(&alice, 0, true);

    let bob = AccountId::new([0x01; 32]);
    contract.register(&bob);
    contract.vote(&bob, 0, false);

    let charlie = AccountId::new([0x02; 32]);
    contract.register(&charlie);
    contract.vote(&charlie, 0, false);
    assert_eq!(contract.get_voter_count(), 3);
}

#[test]
fn registering_twice_counts_once() {
    let mut contract = SimpleDao::deploy(acct(0));
    contract.register(&acct(0));
    contract.register(&acct(1));
    contract.register(&acct(1));
    assert_eq!(contract.get_voter_count(), 2);
}

#[test]
fn proposals_are_numbered_in_order() {
    let mut contract = SimpleDao::deploy(acct(0));
    contract.create_proposal([1; 32]);
    contract.create_proposal([2; 32]);
    assert_eq!(contract.get_proposal(0), ([1; 32], 0, 0));
    assert_eq!(contract.get_proposal(1), ([2; 32], 0, 0));
    assert_eq!(contract.get_proposal(2), ([0; 32], 0, 0));
    assert_eq!(contract.get_proposal(3), ([0; 32], 0, 0));
}

#[test]
fn vote_without_record_is_not_counted() {
    let mut contract = SimpleDao::deploy(acct(0));
    contract.create_proposal([1; 32]);
    contract.vote(&acct(0), 0, true);
    contract.vote(&acct(5), 0, true);
    assert_eq!(contract.get_proposal(0), ([1; 32], 0, 0));
    let none: &[VoteCast] = &[];
    assert_eq!(contract.events().as_slice(), none);
}
