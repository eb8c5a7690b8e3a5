//! The error taxonomy of the auction engine.
//!
//! Every failed operation returns exactly one of these values and leaves the
//! auction state unchanged.

use vstd::prelude::*;

verus! {

/// All the ways an auction operation can fail.
#[derive(Debug, PartialEq, Eq)]
pub enum ContractError {
    /// The caller lacks the role the operation requires.
    Unauthorized {},
    /// No lot with the given id exists.
    LotNotFound {},
    /// The lot is not accepting bids.
    NotBidding {},
    /// The lot is not awaiting the start of bidding.
    NotInit {},
    /// The lot has already been sold.
    AlreadySold {},
    /// The bid does not strictly exceed the current highest bid.
    BidTooLow {},
    /// The bidder's cumulative escrow does not cover the lot's total due.
    InsufficientDeposit {},
    /// The lot's bidding deadline has passed.
    ResourceExpired {},
    /// The lot's bidding deadline has not yet passed.
    NotExpire {},
    /// The attached funds do not consist of exactly one denomination.
    WrongCoinSent {},
    /// The attached funds are in the wrong denomination.
    WrongFundCoin { expected: String, got: String },
    /// A lot's volume or unit price is zero.
    InvalidQuantity {},
}

} // verus!
