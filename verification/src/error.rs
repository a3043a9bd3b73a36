use vstd::prelude::*;

verus! {

/// The ways an operation can fail. Every failure leaves the ledgers exactly
/// as they were: an operation either completes in full or mutates nothing.
#[derive(Clone, Copy, Debug, PartialEq, Eq, Structural)]
pub enum ContractError {
    /// The caller lacks the admin capability required by the operation.
    Unauthorized,
    /// A requested allocation exceeds the dimension's remaining capacity.
    InsufficientResources { requested: u128, available: u128 },
    /// A release exceeds the amount of the dimension currently in use.
    OverRelease { requested: u128, used: u128 },
    /// The resource-type tag does not name an accounting dimension.
    ResourceTypeNotFound,
    /// A generic validation failure: wrong status for the attempted
    /// transition, insufficient or missing funds, mismatched vector lengths.
    OtherError,
    /// Usage would exceed a dimension's capacity ceiling.
    ResourceOverflow,
    /// The referenced resource or order id is absent.
    NotFound,
    /// A resource with the same id is already registered.
    AlreadyExists,
}

} // verus!
