use vstd::prelude::*;

use crate::account::AccountId;
use crate::ledger::{
    balance_in, lemma_balance_le_total, lemma_total_insert, map_total, AmountError, Ledger,
};

verus! {

/// What a donation drive reports, one record per state change.
#[derive(Debug, Clone, Copy, PartialEq, Eq)]
pub enum DonationEvent {
    /// The drive was opened for `beneficiary`.
    Created { beneficiary: AccountId },
    /// `donor` gave `amount`.
    NewDonation { donor: AccountId, amount: u128 },
    /// `largest_donor` overtook the previous largest donor.
    NewLargestDonor {
        prev_largest_donor: AccountId,
        prev_largest_total_donation: u128,
        largest_donor: AccountId,
        largest_total_donation: u128,
    },
    /// The beneficiary collected `amount_withdrew`.
    FundsCollected { beneficiary: AccountId, amount_withdrew: u128 },
    /// Someone other than the beneficiary tried to collect.
    NotAuthorisedToWithdraw { sender: AccountId, beneficiary: AccountId, amount_attempted: u128 },
}

/// The state of a donation drive as the contracts speak of it.
pub ghost struct DonationView {
    pub beneficiary: AccountId,
    pub largest_donor: AccountId,
    pub largest_total_donation: u128,
    pub total_raised: u128,
    pub pending_collection: u128,
    /// Total given by each donor.
    pub donations: Map<AccountId, u128>,
    pub events: Seq<DonationEvent>,
}

impl DonationView {
    /// Total given by `p`.
    pub open spec fn given(self, p: AccountId) -> nat {
        balance_in(self.donations, p)
    }

    /// The amounts are consistent: the donors' totals add up to what was
    /// raised, no more than that is waiting for collection, and the largest
    /// donor's total is the largest of all.
    pub open spec fn consistent(self) -> bool {
        &&& self.donations.dom().finite()
        &&& map_total(self.donations) == self.total_raised
        &&& self.pending_collection <= self.total_raised
        &&& self.largest_total_donation == self.given(self.largest_donor)
        &&& forall|p: AccountId|
            #[trigger] balance_in(self.donations, p) <= self.largest_total_donation
    }

    /// A donation of `amount` can be recorded without the total overflowing.
    pub open spec fn donation_fits(self, amount: u128) -> bool {
        self.total_raised + amount <= u128::MAX
    }

    /// The state after `donor` gives `amount`.
    pub open spec fn after_donation(self, donor: AccountId, amount: u128) -> DonationView {
        let total = (self.given(donor) + amount) as u128;
        let booked = DonationView {
            total_raised: (self.total_raised + amount) as u128,
            pending_collection: (self.pending_collection + amount) as u128,
            donations: self.donations.insert(donor, total),
            events: self.events.push(DonationEvent::NewDonation { donor, amount }),
            ..self
        };
        if donor == self.largest_donor {
            DonationView { largest_total_donation: total, ..booked }
        } else if total > self.given(self.largest_donor) {
            DonationView {
                largest_donor: donor,
                largest_total_donation: total,
                events: booked.events.push(
                    DonationEvent::NewLargestDonor {
                        prev_largest_donor: self.largest_donor,
                        prev_largest_total_donation: self.given(self.largest_donor) as u128,
                        largest_donor: donor,
                        largest_total_donation: total,
                    },
                ),
                ..booked
            }
        } else {
            booked
        }
    }

    /// The state after `sender` asks to collect, where `paid` says whether the
    /// pending amount reached the beneficiary.
    pub open spec fn after_collect(self, sender: AccountId, paid: bool) -> DonationView {
        if sender != self.beneficiary {
            DonationView {
                events: self.events.push(
                    DonationEvent::NotAuthorisedToWithdraw {
                        sender,
                        beneficiary: self.beneficiary,
                        amount_attempted: self.pending_collection,
                    },
                ),
                ..self
            }
        } else if paid {
            DonationView {
                pending_collection: 0,
                events: self.events.push(
                    DonationEvent::FundsCollected {
                        beneficiary: self.beneficiary,
                        amount_withdrew: self.pending_collection,
                    },
                ),
                ..self
            }
        } else {
            self
        }
    }
}

/// A donation drive: anyone gives, the beneficiary collects what has come in,
/// and the largest donor so far is tracked.
pub struct Donation {
    beneficiary: AccountId,
    largest_donor: AccountId,
    largest_total_donation: u128,
    total_raised: u128,
    pending_collection: u128,
    donations: Ledger,
    events: Vec<DonationEvent>,
}

impl View for Donation {
    type V = DonationView;

    closed spec fn view(&self) -> DonationView {
        DonationView {
            beneficiary: self.beneficiary,
            largest_donor: self.largest_donor,
            largest_total_donation: self.largest_total_donation,
            total_raised: self.total_raised,
            pending_collection: self.pending_collection,
            donations: self.donations@,
            events: self.events@,
        }
    }
}

impl Donation {
    /// The record of donations is well formed and the amounts consistent.
    pub closed spec fn wf(&self) -> bool {
        &&& self.donations.wf()
        &&& self@.consistent()
    }

    /// Opens a drive for `caller`, who starts as largest donor with nothing
    /// given; the creation event names `id`.
    pub fn new(caller: AccountId, id: AccountId) -> (r: Donation)
        ensures
            r.wf(),
            r@ == (DonationView {
                beneficiary: caller,
                largest_donor: caller,
                largest_total_donation: 0,
                total_raised: 0,
                pending_collection: 0,
                donations: map![caller => 0u128],
                events: seq![DonationEvent::Created { beneficiary: id }],
            }),
    {
        let mut donations = Ledger::new();
        let credited = donations.credit(&caller, 0);
        let mut events: Vec<DonationEvent> = Vec::new();
        events.push(DonationEvent::Created { beneficiary: id });
        let r = Donation {
            beneficiary: caller,
            largest_donor: caller,
            largest_total_donation: 0,
            total_raised: 0,
            pending_collection: 0,
            donations,
            events,
        };
        proof {
            let m = map![caller => 0u128];
            assert(r.donations@ =~= m);
            assert(r.events@ =~= seq![DonationEvent::Created { beneficiary: id }]);
            crate::ledger::lemma_total_remove(m, caller);
            assert(m.remove(caller).dom() =~= Set::<AccountId>::empty());
        }
        r
    }

    /// A drive for `caller` whose creation event names `caller` too.
    pub fn default(caller: AccountId) -> (r: Donation)
        ensures
            r.wf(),
            r@.beneficiary == caller,
            r@.largest_donor == caller,
            r@.largest_total_donation == 0,
            r@.total_raised == 0,
            r@.pending_collection == 0,
            r@.donations == map![caller => 0u128],
            r@.events == seq![DonationEvent::Created { beneficiary: caller }],
    {
        Donation::new(caller, caller)
    }

    /// Records a gift of `amount`, already paid in by `donor`: it adds to what
    /// was raised, to what waits for collection and to the donor's total, and
    /// the donor becomes the largest donor on overtaking the current one.
    /// Fails, changing nothing, only where the total raised would overflow.
    pub fn make_donation(&mut self, donor: &AccountId, amount: u128) -> (r: Result<(), AmountError>)
        requires
            old(self).wf(),
        ensures
            final(self).wf(),
            r is Err <==> !old(self)@.donation_fits(amount),
            r is Err ==> final(self)@ == old(self)@,
            r is Ok ==> final(self)@ == old(self)@.after_donation(*donor, amount),
    {
        let total_raised = match self.total_raised.checked_add(amount) {
            Some(t) => t,
            None => {
                return Err(AmountError::Overflow);
            },
        };
        let ghost before = self@;
        proof {
            lemma_balance_le_total(self.donations@, *donor);
            lemma_total_insert(self.donations@, *donor, (before.given(*donor) + amount) as u128);
        }
        self.events.push(DonationEvent::NewDonation { donor: *donor, amount });
        self.total_raised = total_raised;
        self.pending_collection = self.pending_collection + amount;
        let credited = self.donations.credit(donor, amount);
        assert(credited is Ok);
        let donor_total = self.donations.balance_of(donor);
        let prev_largest_donor = self.largest_donor;
        let prev_largest_total = self.donations.balance_of(&prev_largest_donor);
        if *donor == prev_largest_donor {
            self.largest_total_donation = donor_total;
        } else if donor_total > prev_largest_total {
            self.largest_donor = *donor;
            self.largest_total_donation = donor_total;
            self.events.push(
                DonationEvent::NewLargestDonor {
                    prev_largest_donor,
                    prev_largest_total_donation: prev_largest_total,
                    largest_donor: *donor,
                    largest_total_donation: donor_total,
                },
            );
        }
        proof {
            assert forall|p: AccountId| #[trigger] balance_in(self.donations@, p)
                <= self.largest_total_donation by {
                assert(balance_in(before.donations, p) <= before.largest_total_donation);
            }
        }
        Ok(())
    }

    /// Hands everything waiting for collection to the beneficiary through
    /// `transfer`. Only the beneficiary may collect; where `transfer`
    /// reports failure the pending amount is kept as it was. Returns whether
    /// the amount was paid out.
    pub fn collect_pending_amount<F: FnOnce(AccountId, u128) -> bool>(
        &mut self,
        sender: &AccountId,
        transfer: F,
    ) -> (r: bool)
        requires
            old(self).wf(),
            call_requires(transfer, (old(self)@.beneficiary, old(self)@.pending_collection)),
        ensures
            final(self).wf(),
            r ==> *sender == old(self)@.beneficiary,
            *sender == old(self)@.beneficiary ==> call_ensures(
                transfer,
                (old(self)@.beneficiary, old(self)@.pending_collection),
                r,
            ),
            final(self)@ == old(self)@.after_collect(*sender, r),
    {
        let pending = self.pending_collection;
        if self.beneficiary != *sender {
            self.events.push(
                DonationEvent::NotAuthorisedToWithdraw {
                    sender: *sender,
                    beneficiary: self.beneficiary,
                    amount_attempted: pending,
                },
            );
            return false;
        }
        self.pending_collection = 0;
        if !transfer(self.beneficiary, pending) {
            self.pending_collection = pending;
            return false;
        }
        self.events.push(
            DonationEvent::FundsCollected {
                beneficiary: self.beneficiary,
                amount_withdrew: pending,
            },
        );
        true
    }

    /// The participant the drive collects for.
    pub fn get_beneficiary(&self) -> (r: AccountId)
        ensures
            r == self@.beneficiary,
    {
        self.beneficiary
    }

    /// The donor with the largest total so far.
    pub fn get_largest_donor(&self) -> (r: AccountId)
        ensures
            r == self@.largest_donor,
    {
        self.largest_donor
    }

    /// The largest total given by one donor.
    pub fn get_largest_total_donation(&self) -> (r: u128)
        ensures
            r == self@.largest_total_donation,
    {
        self.largest_total_donation
    }

    /// Everything given so far.
    pub fn get_total_raised(&self) -> (r: u128)
        ensures
            r == self@.total_raised,
    {
        self.total_raised
    }

    /// What waits for the beneficiary to collect.
    pub fn get_pending_collection(&self) -> (r: u128)
        ensures
            r == self@.pending_collection,
    {
        self.pending_collection
    }

    /// Total given by `p`; zero for someone who never gave.
    pub fn get_accounts_total_donations(&self, p: &AccountId) -> (r: u128)
        requires
            self.wf(),
        ensures
            r == self@.given(*p),
    {
        self.donations.balance_of(p)
    }

    /// The donors' totals.
    pub fn donations(&self) -> (r: &Ledger)
        requires
            self.wf(),
        ensures
            r.wf(),
            r@ == self@.donations,
    {
        &self.donations
    }

    /// Everything the drive has reported, oldest first.
    pub fn events(&self) -> (r: &Vec<DonationEvent>)
        ensures
            r@ == self@.events,
    {
        &self.events
    }
}

} // verus!
