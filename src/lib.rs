//! An open ascending-price auction with pull payments, together with a
//! donation drive and a voting registry, each as a state machine whose every
//! operation is stated over a mathematical view of its state.

pub mod account;
pub mod auction;
pub mod dao;
pub mod donation;
pub mod event;
pub mod laws;
pub mod ledger;

pub use account::AccountId;
pub use auction::{Auction, AuctionView};
pub use dao::{RoleType, SimpleDao, VoteCast};
pub use donation::{Donation, DonationEvent};
pub use event::Event;
pub use ledger::{AmountError, Ledger};
