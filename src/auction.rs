use vstd::prelude::*;

use crate::account::AccountId;
use crate::event::Event;
use crate::ledger::{balance_in, lemma_balance_le_total, map_total, AmountError, Ledger};

verus! {

/// Time in milliseconds that a default auction stays reserved to its
/// beneficiary for closing.
pub const DEFAULT_DURATION: u64 = 60;

/// Whether the deadline has passed, so that anyone may close the auction.
pub fn end_time_reached(now: u64, end_time: u64) -> (r: bool)
    ensures
        r == (now > end_time),
{
    now > end_time
}

/// `m` with `amount` added to the balance of `p`.
pub open spec fn credit_ledger(
    m: Map<AccountId, u128>,
    p: AccountId,
    amount: nat,
) -> Map<AccountId, u128> {
    m.insert(p, (balance_in(m, p) + amount) as u128)
}

/// Deadline of an auction opened at `now` for `duration`, saturating at the
/// largest time.
pub open spec fn deadline(now: u64, duration: u64) -> u64 {
    if now + duration > u64::MAX {
        u64::MAX
    } else {
        (now + duration) as u64
    }
}

/// The state of a freshly opened auction: no bid, the beneficiary as highest
/// bidder, an entry of zero for the beneficiary, and one creation event.
pub open spec fn opened(
    beneficiary: AccountId,
    starting_price: u128,
    duration: u64,
    now: u64,
) -> AuctionView {
    AuctionView {
        beneficiary,
        highest_bidder: beneficiary,
        highest_bid: 0,
        starting_price,
        ended: false,
        created_time: now,
        end_time: deadline(now, duration),
        ledger: map![beneficiary => 0u128],
        held: 0,
        deposited: 0,
        withdrawn: 0,
        events: seq![
            Event::Created {
                beneficiary,
                starting_price,
                created_time: now,
                end_time: deadline(now, duration),
            },
        ],
    }
}

/// The state of an auction as the contracts speak of it.
pub ghost struct AuctionView {
    pub beneficiary: AccountId,
    pub highest_bidder: AccountId,
    pub highest_bid: u128,
    pub starting_price: u128,
    pub ended: bool,
    pub created_time: u64,
    pub end_time: u64,
    /// Withdrawable balance of each participant.
    pub ledger: Map<AccountId, u128>,
    /// Value the auction holds: all balances and the bid still in play.
    pub held: u128,
    /// All value ever paid in with bids.
    pub deposited: nat,
    /// All value ever paid out by withdrawals.
    pub withdrawn: nat,
    /// What the auction has reported, oldest first.
    pub events: Seq<Event>,
}

impl AuctionView {
    /// Withdrawable balance of `p`.
    pub open spec fn balance(self, p: AccountId) -> nat {
        balance_in(self.ledger, p)
    }

    /// The amount a bid has to exceed to win.
    pub open spec fn asking_price(self) -> u128 {
        if self.highest_bid > self.starting_price {
            self.highest_bid
        } else {
            self.starting_price
        }
    }

    /// The highest bid while it is still in play; nothing once closed, when it
    /// has become the beneficiary's balance.
    pub open spec fn locked(self) -> nat {
        if self.ended {
            0
        } else {
            self.highest_bid as nat
        }
    }

    /// The balances and the bid in play make up exactly what was paid in and
    /// not paid out, and that is what the auction holds.
    pub open spec fn conserved(self) -> bool {
        &&& self.ledger.dom().finite()
        &&& map_total(self.ledger) + self.locked() == self.held
        &&& self.held + self.withdrawn == self.deposited
    }

    /// A bid of `amount` can be taken in without the value held overflowing.
    pub open spec fn bid_fits(self, amount: u128) -> bool {
        self.held + amount <= u128::MAX
    }

    /// A bid of `amount` becomes the highest bid.
    pub open spec fn bid_accepted(self, amount: u128) -> bool {
        !self.ended && amount > self.starting_price && amount > self.highest_bid
    }

    /// The state after `caller` bids `amount`.
    pub open spec fn after_bid(self, caller: AccountId, amount: u128) -> AuctionView {
        let paid_in = AuctionView {
            held: (self.held + amount) as u128,
            deposited: self.deposited + amount as nat,
            ..self
        };
        if self.ended {
            AuctionView {
                ledger: credit_ledger(self.ledger, caller, amount as nat),
                events: self.events.push(Event::BidRejectedAuctionEnded { bidder: caller, amount }),
                ..paid_in
            }
        } else if amount <= self.starting_price {
            AuctionView {
                ledger: credit_ledger(self.ledger, caller, amount as nat),
                events: self.events.push(
                    Event::BidRejectedBelowStart {
                        bidder: caller,
                        amount,
                        starting_price: self.starting_price,
                    },
                ),
                ..paid_in
            }
        } else if amount <= self.highest_bid {
            AuctionView {
                ledger: credit_ledger(self.ledger, caller, amount as nat),
                events: self.events.push(
                    Event::BidRejectedBelowHighest {
                        bidder: caller,
                        amount,
                        highest_bidder: self.highest_bidder,
                        highest_bid: self.highest_bid,
                    },
                ),
                ..paid_in
            }
        } else {
            AuctionView {
                ledger: credit_ledger(self.ledger, self.highest_bidder, self.highest_bid as nat),
                highest_bidder: caller,
                highest_bid: amount,
                events: self.events.push(
                    Event::NewHighestBid {
                        previous_bidder: self.highest_bidder,
                        previous_bid: self.highest_bid,
                        bidder: caller,
                        bid: amount,
                    },
                ),
                ..paid_in
            }
        }
    }

    /// `caller` may close the auction at time `now`.
    pub open spec fn end_accepted(self, caller: AccountId, now: u64) -> bool {
        !self.ended && (caller == self.beneficiary || now > self.end_time)
    }

    /// The state after `caller` asks to close the auction at time `now`.
    pub open spec fn after_end(self, caller: AccountId, now: u64) -> AuctionView {
        if self.ended {
            AuctionView {
                events: self.events.push(
                    Event::AlreadyEnded {
                        highest_bidder: self.highest_bidder,
                        highest_bid: self.highest_bid,
                    },
                ),
                ..self
            }
        } else if caller != self.beneficiary && !(now > self.end_time) {
            AuctionView {
                events: self.events.push(
                    Event::NotAuthorizedToEnd { caller, beneficiary: self.beneficiary },
                ),
                ..self
            }
        } else {
            AuctionView {
                ended: true,
                ledger: credit_ledger(self.ledger, self.beneficiary, self.highest_bid as nat),
                events: self.events.push(
                    Event::Ended {
                        highest_bidder: self.highest_bidder,
                        highest_bid: self.highest_bid,
                    },
                ),
                ..self
            }
        }
    }

    /// The state after a withdrawal by `caller`: the whole balance paid out
    /// where `paid`, nothing changed otherwise.
    pub open spec fn after_withdraw(self, caller: AccountId, paid: bool) -> AuctionView {
        if paid {
            AuctionView {
                ledger: self.ledger.insert(caller, 0),
                held: (self.held - self.balance(caller)) as u128,
                withdrawn: self.withdrawn + self.balance(caller),
                events: self.events.push(
                    Event::Withdrawal { account: caller, amount: self.balance(caller) as u128 },
                ),
                ..self
            }
        } else {
            self
        }
    }
}

/// An open ascending-price auction whose payouts are pulled: every amount
/// owed to a participant goes to a withdrawable balance, and only `withdraw`
/// moves value out.
pub struct Auction {
    beneficiary: AccountId,
    highest_bidder: AccountId,
    highest_bid: u128,
    starting_price: u128,
    ended: bool,
    ledger: Ledger,
    created_time: u64,
    end_time: u64,
    held: u128,
    events: Vec<Event>,
    deposited: Ghost<nat>,
    withdrawn: Ghost<nat>,
}

impl View for Auction {
    type V = AuctionView;

    closed spec fn view(&self) -> AuctionView {
        AuctionView {
            beneficiary: self.beneficiary,
            highest_bidder: self.highest_bidder,
            highest_bid: self.highest_bid,
            starting_price: self.starting_price,
            ended: self.ended,
            created_time: self.created_time,
            end_time: self.end_time,
            ledger: self.ledger@,
            held: self.held,
            deposited: self.deposited@,
            withdrawn: self.withdrawn@,
            events: self.events@,
        }
    }
}

impl Auction {
    /// The ledger is well formed and the value held is accounted for.
    pub closed spec fn wf(&self) -> bool {
        &&& self.ledger.wf()
        &&& self@.conserved()
        &&& (self.highest_bid == 0 || self.highest_bid > self.starting_price)
    }

    /// Opens an auction for `beneficiary` at time `now`, with the given
    /// starting price, reserved to the beneficiary for closing during
    /// `duration` milliseconds (the deadline saturates at the largest time).
    pub fn new(beneficiary: AccountId, starting_price: u128, duration: u64, now: u64) -> (r:
        Auction)
        ensures
            r.wf(),
            r@ == opened(beneficiary, starting_price, duration, now),
    {
        let end_time = now.saturating_add(duration);
        let mut ledger = Ledger::new();
        let credited = ledger.credit(&beneficiary, 0);
        let mut events: Vec<Event> = Vec::new();
        events.push(
            Event::Created { beneficiary, starting_price, created_time: now, end_time },
        );
        let r = Auction {
            beneficiary,
            highest_bidder: beneficiary,
            highest_bid: 0,
            starting_price,
            ended: false,
            ledger,
            created_time: now,
            end_time,
            held: 0,
            events,
            deposited: Ghost(0),
            withdrawn: Ghost(0),
        };
        proof {
            assert(r.ledger@ =~= map![beneficiary => 0u128]);
            assert(r.events@ =~= seq![
                Event::Created { beneficiary, starting_price, created_time: now, end_time },
            ]);
        }
        r
    }

    /// An auction with no starting price and the default duration.
    pub fn default(beneficiary: AccountId, now: u64) -> (r: Auction)
        ensures
            r.wf(),
            r@ == opened(beneficiary, 0, DEFAULT_DURATION, now),
    {
        Auction::new(beneficiary, 0, DEFAULT_DURATION, now)
    }

    /// A bid of `amount`, already paid in by `caller`, at the current state.
    ///
    /// The bid wins where it exceeds both the starting price and the highest
    /// bid and the auction is open: the previous highest bid is then added to
    /// the balance of the previous highest bidder. Any other bid is added to
    /// the balance of `caller` and `false` is returned. Either way one event
    /// is recorded. Fails, changing nothing, only where the value held would
    /// overflow.
    pub fn bid(&mut self, caller: &AccountId, amount: u128) -> (r: Result<bool, AmountError>)
        requires
            old(self).wf(),
        ensures
            final(self).wf(),
            r is Err <==> !old(self)@.bid_fits(amount),
            r is Err ==> final(self)@ == old(self)@,
            r is Ok ==> final(self)@ == old(self)@.after_bid(*caller, amount),
            r matches Ok(accepted) ==> accepted == old(self)@.bid_accepted(amount),
    {
        let held = match self.held.checked_add(amount) {
            Some(h) => h,
            None => {
                return Err(AmountError::Overflow);
            },
        };
        proof {
            lemma_balance_le_total(self.ledger@, *caller);
            lemma_balance_le_total(self.ledger@, self.highest_bidder);
        }
        self.held = held;
        proof {
            self.deposited@ = self.deposited@ + amount as nat;
        }
        if self.ended {
            let credited = self.ledger.credit(caller, amount);
            assert(credited is Ok);
            self.events.push(Event::BidRejectedAuctionEnded { bidder: *caller, amount });
            Ok(false)
        } else if amount <= self.starting_price {
            let credited = self.ledger.credit(caller, amount);
            assert(credited is Ok);
            self.events.push(
                Event::BidRejectedBelowStart {
                    bidder: *caller,
                    amount,
                    starting_price: self.starting_price,
                },
            );
            Ok(false)
        } else if amount <= self.highest_bid {
            let credited = self.ledger.credit(caller, amount);
            assert(credited is Ok);
            self.events.push(
                Event::BidRejectedBelowHighest {
                    bidder: *caller,
                    amount,
                    highest_bidder: self.highest_bidder,
                    highest_bid: self.highest_bid,
                },
            );
            Ok(false)
        } else {
            let previous_bidder = self.highest_bidder;
            let previous_bid = self.highest_bid;
            let credited = self.ledger.credit(&previous_bidder, previous_bid);
            assert(credited is Ok);
            self.highest_bid = amount;
            self.highest_bidder = *caller;
            self.events.push(
                Event::NewHighestBid {
                    previous_bidder,
                    previous_bid,
                    bidder: *caller,
                    bid: amount,
                },
            );
            Ok(true)
        }
    }

    /// A request by `caller` at time `now` to close the auction.
    ///
    /// Closing happens once: the beneficiary may close at any time, anyone
    /// else only after the deadline. The highest bid is then added to the
    /// beneficiary's balance. One event is recorded either way.
    pub fn end(&mut self, caller: &AccountId, now: u64) -> (r: bool)
        requires
            old(self).wf(),
        ensures
            final(self).wf(),
            r == old(self)@.end_accepted(*caller, now),
            final(self)@ == old(self)@.after_end(*caller, now),
    {
        if self.ended {
            self.events.push(
                Event::AlreadyEnded {
                    highest_bidder: self.highest_bidder,
                    highest_bid: self.highest_bid,
                },
            );
            return false;
        } else if self.beneficiary != *caller && !end_time_reached(now, self.end_time) {
            self.events.push(
                Event::NotAuthorizedToEnd { caller: *caller, beneficiary: self.beneficiary },
            );
            return false;
        }
        proof {
            lemma_balance_le_total(self.ledger@, self.beneficiary);
        }
        self.ended = true;
        let beneficiary = self.beneficiary;
        let credited = self.ledger.credit(&beneficiary, self.highest_bid);
        assert(credited is Ok);
        self.events.push(
            Event::Ended { highest_bidder: self.highest_bidder, highest_bid: self.highest_bid },
        );
        true
    }

    /// Pays out the whole balance of `caller` through `transfer`.
    ///
    /// Nothing happens where the balance is zero. Otherwise the balance is
    /// set to zero before `transfer` is called, so that the payout can never
    /// be claimed twice; where `transfer` reports failure the balance is put
    /// back as it was. Returns whether value was paid out, and records an
    /// event only then.
    pub fn withdraw<F: FnOnce(AccountId, u128) -> bool>(
        &mut self,
        caller: &AccountId,
        transfer: F,
    ) -> (r: bool)
        requires
            old(self).wf(),
            call_requires(transfer, (*caller, old(self)@.balance(*caller) as u128)),
        ensures
            final(self).wf(),
            r ==> old(self)@.balance(*caller) > 0,
            old(self)@.balance(*caller) > 0 ==> call_ensures(
                transfer,
                (*caller, old(self)@.balance(*caller) as u128),
                r,
            ),
            final(self)@ == old(self)@.after_withdraw(*caller, r),
    {
        let amount = self.ledger.balance_of(caller);
        if amount == 0 {
            return false;
        }
        let ghost before = self.ledger@;
        let taken = self.ledger.zero(caller);
        if transfer(*caller, amount) {
            proof {
                lemma_balance_le_total(before, *caller);
                self.withdrawn@ = self.withdrawn@ + amount as nat;
            }
            self.held = self.held - amount;
            self.events.push(Event::Withdrawal { account: *caller, amount });
            true
        } else {
            self.ledger.restore(caller, taken);
            assert(self.ledger@ =~= before);
            false
        }
    }

    /// The highest bid so far; zero before any bid was accepted.
    pub fn get_highest_bid(&self) -> (r: u128)
        ensures
            r == self@.highest_bid,
    {
        self.highest_bid
    }

    /// The price a first bid has to exceed.
    pub fn get_starting_price(&self) -> (r: u128)
        ensures
            r == self@.starting_price,
    {
        self.starting_price
    }

    /// The value the auction holds for its participants.
    pub fn get_contract_balance(&self) -> (r: u128)
        ensures
            r == self@.held,
    {
        self.held
    }

    /// The amount a bid has to exceed to win: the larger of the highest bid
    /// and the starting price.
    pub fn get_current_asking_price(&self) -> (r: u128)
        ensures
            r == self@.asking_price(),
    {
        if self.highest_bid > self.starting_price {
            self.highest_bid
        } else {
            self.starting_price
        }
    }

    /// The participant holding the highest bid; the beneficiary before any
    /// bid was accepted.
    pub fn get_highest_bidder(&self) -> (r: AccountId)
        ensures
            r == self@.highest_bidder,
    {
        self.highest_bidder
    }

    /// The participant the auction was opened for.
    pub fn get_beneficiary(&self) -> (r: AccountId)
        ensures
            r == self@.beneficiary,
    {
        self.beneficiary
    }

    /// Whether the auction has been closed.
    pub fn is_ended(&self) -> (r: bool)
        ensures
            r == self@.ended,
    {
        self.ended
    }

    /// Withdrawable balance of `p`; zero where `p` was never credited.
    pub fn balance_of(&self, p: &AccountId) -> (r: u128)
        requires
            self.wf(),
        ensures
            r == self@.balance(*p),
    {
        self.ledger.balance_of(p)
    }

    /// Whether, at time `now`, anyone may close the auction.
    pub fn time_end_allowed(&self, now: u64) -> (r: bool)
        ensures
            r == (now > self@.end_time),
    {
        end_time_reached(now, self.end_time)
    }

    /// The time the auction was opened.
    pub fn get_created_time(&self) -> (r: u64)
        ensures
            r == self@.created_time,
    {
        self.created_time
    }

    /// The time after which anyone may close the auction.
    pub fn get_end_time(&self) -> (r: u64)
        ensures
            r == self@.end_time,
    {
        self.end_time
    }

    /// Milliseconds left at time `now` until anyone may close the auction;
    /// zero once the deadline is reached.
    pub fn get_time_left(&self, now: u64) -> (r: u64)
        ensures
            r == (if self@.end_time > now {
                self@.end_time - now
            } else {
                0
            }),
    {
        self.end_time.saturating_sub(now)
    }

    /// The withdrawable balances.
    pub fn ledger(&self) -> (r: &Ledger)
        requires
            self.wf(),
        ensures
            r.wf(),
            r@ == self@.ledger,
    {
        &self.ledger
    }

    /// Everything the auction has reported, oldest first.
    pub fn events(&self) -> (r: &Vec<Event>)
        ensures
            r@ == self@.events,
    {
        &self.events
    }
}

/// Every state that the public operations can reach keeps the value
/// accounted for: the sum of all balances, plus the highest bid while the
/// auction is open, equals all value paid in with bids less all value paid
/// out by withdrawals.
pub proof fn lemma_value_conserved(a: &Auction)
    requires
        a.wf(),
    ensures
        a@.conserved(),
        map_total(a@.ledger) + a@.locked() + a@.withdrawn == a@.deposited,
{
}

/// In every state that the public operations can reach, the highest bid is
/// either zero, before any bid was accepted, or above the starting price.
pub proof fn lemma_highest_bid_qualifies(a: &Auction)
    requires
        a.wf(),
    ensures
        a@.highest_bid == 0 || a@.highest_bid > a@.starting_price,
{
}

} // verus!
