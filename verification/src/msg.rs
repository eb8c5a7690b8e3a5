//! The requests the auction engine answers and the values it returns.
//!
//! Requests form a closed set of variants matched exhaustively by
//! [`crate::contract::execute`] and [`crate::contract::query`].  Mutating
//! operations return an [`ExecuteResponse`] event record together with the
//! transfer instructions an external ledger must execute.

use vstd::prelude::*;

use crate::state::Resource;

verus! {

/// Creates the engine: the privileged owner (the request sender when absent)
/// and the single accepted deposit currency.
pub struct InstantiateMsg {
    pub owner: Option<String>,
    pub denom: String,
}

/// One state-mutating request.
pub enum ExecuteMsg {
    NewResource { seller_id: Option<String>, volume: u64, price: u64 },
    PlaceBid { resource_id: u64, buyer_id: Option<String>, price: u64 },
    CancelResource { resource_id: u64 },
    StartBidding { resource_id: u64 },
    FinalizeBids {},
    FinalizeBid { resource_id: u64 },
}

/// One read-only request.
pub enum QueryMsg {
    QueryResources {},
}

/// The answer to [`QueryMsg::QueryResources`]: a fresh snapshot of every
/// lot, sorted by unit price and then by id.
pub struct QueryResourcesResponse {
    pub resources: Vec<Resource>,
}

/// A decided-but-not-yet-executed transfer, handed to an external ledger.
#[derive(Debug)]
pub struct TransferInstruction {
    pub destination: String,
    pub amount: u128,
    pub denom: String,
}

/// The mathematical shadow of a [`TransferInstruction`].
pub ghost struct TransferView {
    pub destination: Seq<char>,
    pub amount: u128,
    pub denom: Seq<char>,
}

impl View for TransferInstruction {
    type V = TransferView;

    open spec fn view(&self) -> TransferView {
        TransferView {
            destination: self.destination@,
            amount: self.amount,
            denom: self.denom@,
        }
    }
}

/// The event record of one settled lot within a batch settlement.
#[derive(Debug)]
pub struct FinalizedLot {
    pub resource_id: u64,
    /// Whether the lot went to a winning bid (`true`) or closed unsold.
    pub sold: bool,
    pub refunds: Vec<TransferInstruction>,
}

/// The event record a successful state-mutating request returns: the method
/// that ran and the field values it committed.
#[derive(Debug)]
pub enum ExecuteResponse {
    Created { resource_id: u64, seller_id: String, volume: u64, price: u64, expire: u64 },
    BiddingStarted { resource_id: u64 },
    BidPlaced { resource_id: u64, buyer_id: String, price: u64, expire: u64 },
    Canceled { resource_id: u64, refunds: Vec<TransferInstruction> },
    Finalized { resource_id: u64, sold: bool, refunds: Vec<TransferInstruction> },
    BatchFinalized { settled: Vec<FinalizedLot> },
}

} // verus!
