use vstd::prelude::*;

use crate::account::AccountId;

verus! {

/// One record per state transition of an auction, in the order the
/// transitions happened.
#[derive(Debug, Clone, Copy, PartialEq, Eq)]
pub enum Event {
    /// The auction was opened.
    Created { beneficiary: AccountId, starting_price: u128, created_time: u64, end_time: u64 },
    /// A bid above the asking price displaced the previous highest bid.
    NewHighestBid {
        previous_bidder: AccountId,
        previous_bid: u128,
        bidder: AccountId,
        bid: u128,
    },
    /// A bid that did not exceed the starting price was turned into a balance.
    BidRejectedBelowStart { bidder: AccountId, amount: u128, starting_price: u128 },
    /// A bid that did not exceed the highest bid was turned into a balance.
    BidRejectedBelowHighest {
        bidder: AccountId,
        amount: u128,
        highest_bidder: AccountId,
        highest_bid: u128,
    },
    /// A bid that came after closing was turned into a balance.
    BidRejectedAuctionEnded { bidder: AccountId, amount: u128 },
    /// The auction was closed and the winning bid credited to the beneficiary.
    Ended { highest_bidder: AccountId, highest_bid: u128 },
    /// A request to close an auction that was already closed.
    AlreadyEnded { highest_bidder: AccountId, highest_bid: u128 },
    /// A request to close early from someone other than the beneficiary.
    NotAuthorizedToEnd { caller: AccountId, beneficiary: AccountId },
    /// A balance was paid out.
    Withdrawal { account: AccountId, amount: u128 },
}

} // verus!
