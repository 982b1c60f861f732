use vstd::prelude::*;

use crate::account::AccountId;
use crate::auction::{opened, AuctionView};
use crate::ledger::{lemma_balance_le_total, lemma_total_insert, map_total};

verus! {

/// A freshly opened auction holds nothing and owes nothing.
pub proof fn lemma_opened_conserved(
    beneficiary: AccountId,
    starting_price: u128,
    duration: u64,
    now: u64,
)
    ensures
        opened(beneficiary, starting_price, duration, now).conserved(),
{
    let s = opened(beneficiary, starting_price, duration, now);
    assert(s.ledger.dom() =~= set![beneficiary]);
    crate::ledger::lemma_total_remove(s.ledger, beneficiary);
    assert(s.ledger.remove(beneficiary).dom() =~= Set::<AccountId>::empty());
}

/// A bid that is taken in keeps the value accounted for.
pub proof fn lemma_bid_conserves(s: AuctionView, caller: AccountId, amount: u128)
    requires
        s.conserved(),
        s.bid_fits(amount),
    ensures
        s.after_bid(caller, amount).conserved(),
{
    lemma_balance_le_total(s.ledger, caller);
    lemma_balance_le_total(s.ledger, s.highest_bidder);
    if s.bid_accepted(amount) {
        lemma_total_insert(
            s.ledger,
            s.highest_bidder,
            (s.balance(s.highest_bidder) + s.highest_bid) as u128,
        );
    } else {
        lemma_total_insert(s.ledger, caller, (s.balance(caller) + amount) as u128);
    }
}

/// A request to close keeps the value accounted for.
pub proof fn lemma_end_conserves(s: AuctionView, caller: AccountId, now: u64)
    requires
        s.conserved(),
    ensures
        s.after_end(caller, now).conserved(),
{
    lemma_balance_le_total(s.ledger, s.beneficiary);
    lemma_total_insert(
        s.ledger,
        s.beneficiary,
        (s.balance(s.beneficiary) + s.highest_bid) as u128,
    );
}

/// A withdrawal, paid out or not, keeps the value accounted for.
pub proof fn lemma_withdraw_conserves(s: AuctionView, caller: AccountId, paid: bool)
    requires
        s.conserved(),
        paid ==> s.balance(caller) > 0,
    ensures
        s.after_withdraw(caller, paid).conserved(),
{
    lemma_balance_le_total(s.ledger, caller);
    lemma_total_insert(s.ledger, caller, 0);
}

/// `after` is no step back from `before`: the highest bid has not gone down
/// and a closed auction has stayed closed.
pub open spec fn progressed(before: AuctionView, after: AuctionView) -> bool {
    &&& before.highest_bid <= after.highest_bid
    &&& before.ended ==> after.ended
}

/// No call lowers the highest bid or reopens a closed auction.
pub proof fn lemma_calls_progress(
    s: AuctionView,
    caller: AccountId,
    amount: u128,
    now: u64,
    paid: bool,
)
    ensures
        progressed(s, s.after_bid(caller, amount)),
        progressed(s, s.after_end(caller, now)),
        progressed(s, s.after_withdraw(caller, paid)),
{
}

/// Along any run of states in which each step progresses, every later state
/// has progressed from every earlier one.
pub proof fn lemma_progress_over_runs(run: Seq<AuctionView>)
    requires
        forall|i: int| 0 <= i < run.len() - 1 ==> #[trigger] progressed(run[i], run[i + 1]),
    ensures
        forall|i: int, j: int| 0 <= i <= j < run.len() ==> progressed(run[i], run[j]),
    decreases run.len(),
{
    if run.len() > 0 {
        let front = run.drop_last();
        assert forall|i: int| 0 <= i < front.len() - 1 implies #[trigger] progressed(
            front[i],
            front[i + 1],
        ) by {
            assert(progressed(run[i], run[i + 1]));
        }
        lemma_progress_over_runs(front);
        assert forall|i: int, j: int| 0 <= i <= j < run.len() implies progressed(
            run[i],
            run[j],
        ) by {
            if j == run.len() - 1 && i < j {
                assert(progressed(front[i], front[j - 1]));
                assert(progressed(run[j - 1], run[(j - 1) + 1]));
            } else if j < run.len() - 1 {
                assert(progressed(front[i], front[j]));
            }
        }
    }
}

/// A bid that does not exceed the asking price leaves the highest bid and
/// bidder as they were and adds the whole amount to the bidder's balance.
pub proof fn lemma_low_bid_refunded(s: AuctionView, caller: AccountId, amount: u128)
    requires
        s.conserved(),
        s.bid_fits(amount),
        amount <= s.asking_price(),
    ensures
        s.after_bid(caller, amount).highest_bidder == s.highest_bidder,
        s.after_bid(caller, amount).highest_bid == s.highest_bid,
        s.after_bid(caller, amount).balance(caller) == s.balance(caller) + amount,
{
    lemma_balance_le_total(s.ledger, caller);
}

/// A bid above the asking price on an open auction adds the whole previous
/// highest bid to the previous bidder's balance, leaves every other balance
/// alone, and makes the bid and its bidder the highest.
pub proof fn lemma_higher_bid_displaces(s: AuctionView, caller: AccountId, amount: u128)
    requires
        s.conserved(),
        s.bid_fits(amount),
        !s.ended,
        amount > s.asking_price(),
    ensures
        s.after_bid(caller, amount).balance(s.highest_bidder) == s.balance(s.highest_bidder)
            + s.highest_bid,
        forall|p: AccountId|
            p != s.highest_bidder ==> #[trigger] s.after_bid(caller, amount).balance(p)
                == s.balance(p),
        s.after_bid(caller, amount).highest_bidder == caller,
        s.after_bid(caller, amount).highest_bid == amount,
{
    lemma_balance_le_total(s.ledger, s.highest_bidder);
}

/// After a withdrawal that paid out, the balance is zero, so a second
/// withdrawal pays nothing (`withdraw` only returns `true` on a positive
/// balance) and changes nothing.
pub proof fn lemma_withdraw_twice(s: AuctionView, caller: AccountId)
    requires
        s.balance(caller) > 0,
    ensures
        s.after_withdraw(caller, true).balance(caller) == 0,
        s.after_withdraw(caller, true).after_withdraw(caller, false) == s.after_withdraw(
            caller,
            true,
        ),
{
}

/// A withdrawal whose transfer failed leaves the balance, and the whole
/// state, as before the call.
pub proof fn lemma_failed_withdraw_keeps_balance(s: AuctionView, caller: AccountId)
    ensures
        s.after_withdraw(caller, false) == s,
        s.after_withdraw(caller, false).balance(caller) == s.balance(caller),
{
}

} // verus!
