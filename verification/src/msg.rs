use crate::state::{Approval, Coin, Expiration, OfferingsResponse};
use vstd::prelude::*;

verus! {

/// Sets the marketplace up. The counter field is accepted and ignored; the
/// marketplace keeps no use for it.
pub struct InstantiateMsg {
    pub count: i32,
}

/// What a command carries besides its message: the caller's identity and the
/// funds attached to the transaction.
#[derive(Debug)]
pub struct MessageInfo {
    pub sender: String,
    pub funds: Vec<Coin>,
}

/// The command surface of the marketplace.
pub enum ExecuteMsg {
    /// Grant (or refresh) a spender's transfer right over one token.
    Approve { spender: String, token_id: String, expires: Option<Expiration> },
    /// Put a token up for sale. The minimum bid is accepted and ignored:
    /// the marketplace implements no bidding.
    List { expires: u64, price: Coin, minimum_bid: u128, token_id: String },
    /// Buy a listed token with the funds attached to the transaction.
    Buy { token_id: String },
    /// Take a token off sale.
    Unlist { token_id: String },
}

/// The query surface of the marketplace.
pub enum QueryMsg {
    GetListing { token_id: String },
    /// Enumerate listings; `start` and `end` bound the positions returned,
    /// for pagination over the store's enumeration.
    GetAllListings { start: u128, end: u128 },
}

/// An outbound instruction to an external system. A command produces its
/// instructions as values; the host submits them atomically with the state
/// change, never from inside the state machine.
#[derive(Debug)]
pub enum Instruction {
    /// Tell the funds ledger to move `amount` to `to_address`.
    FundTransfer { to_address: String, amount: Coin },
    /// Tell the asset-ownership registry at `contract_addr` to transfer
    /// `token_id` to `recipient`, under the approval the marketplace obtained
    /// for itself at listing time.
    OwnershipTransfer { contract_addr: String, recipient: String, token_id: String },
}

/// A key-value pair logged with a successful command.
#[derive(Debug)]
pub struct Attribute {
    pub key: String,
    pub value: String,
}

/// What a successful command hands back to the host: the outbound
/// instructions to submit and the attributes to log.
#[derive(Debug)]
pub struct Response {
    pub messages: Vec<Instruction>,
    pub attributes: Vec<Attribute>,
}

/// The single-listing query's answer.
#[derive(Debug)]
pub struct ListingResponse {
    pub owner: String,
    pub token_id: String,
    pub price: Coin,
    pub expiry: u64,
    pub approvals: Vec<Approval>,
}

/// One listing as projected by the paginated enumeration query.
#[derive(Debug)]
pub struct QueryListingsResponse {
    pub id: String,
    pub token_id: String,
    pub list_price: Coin,
    pub contract_addr: String,
    pub seller: String,
}

/// The paginated enumeration query's answer.
#[derive(Debug)]
pub struct ListingsResponse {
    pub listings: Vec<QueryListingsResponse>,
}

/// The answer of the query surface, one variant per query.
#[derive(Debug)]
pub enum QueryAnswer {
    Listing(ListingResponse),
    Offerings(OfferingsResponse),
}

} // verus!
