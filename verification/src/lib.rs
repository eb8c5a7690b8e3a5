//! An auction engine for discrete lots over a caller-supplied logical clock.
//!
//! Lots are created by sellers, opened for bidding, bid on with escrowed
//! funds, and finally settled: the winner's escrow is kept as payment and
//! every other bidder is refunded in full.  All state lives in an explicit
//! [`state::AuctionState`] value that each operation reads and updates; an
//! operation's contract states exactly which inputs succeed, which
//! [`error::ContractError`] every other input draws, and how the state
//! moves in either case.

pub mod contract;
pub mod error;
pub mod helpers;
pub mod msg;
pub mod state;
