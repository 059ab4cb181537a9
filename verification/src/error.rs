use vstd::prelude::*;

verus! {

/// Every way a marketplace command can fail. Each precondition of a command
/// maps to exactly one variant, and a failed command leaves all state
/// unchanged.
#[derive(Clone, Copy, PartialEq, Eq, Structural, Debug)]
pub enum ContractError {
    /// The caller holds no right that the command demands.
    Unauthorized,
    /// A listing for the token already exists.
    AlreadyListed,
    /// The asked price is zero.
    InvalidPrice,
    /// The asked price is not in the single denomination the marketplace deals in.
    OnlyUST,
    /// The requested listing expiry is not after the current block height.
    ExpiryInPast,
    /// The requested listing expiry is nearer than the minimum window.
    ExpiryTooShort,
    /// The requested listing expiry is farther than the maximum window.
    ExpiryTooLong,
    /// No listing exists for the token.
    NotListed,
    /// The funds sent with a buy do not match the listing price exactly.
    InvalidFunds,
    /// A grant or listing exists but its validity window has passed.
    Expired,
}

} // verus!
