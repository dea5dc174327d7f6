//! The gateway's request vocabulary: providers, attribute kinds, and the
//! error taxonomy that every component reports through.

use vstd::prelude::*;

verus! {

/// An upstream provider, one per paid route of the gateway.
#[derive(Clone, Copy, PartialEq, Eq, Structural, Debug)]
pub enum API {
    /// Raw record search against the breach-data provider.
    SnusbaseQuery,
    /// Password rehash / hash dehash lookups.
    SnusbaseHashing,
    /// IP whois/geolocation lookups.
    SnusbaseGeolocation,
    /// Caller-id (CNAM) lookups.
    BulkVS,
    /// Username enumeration over a streaming session.
    Sherlock,
}

/// The kind of personally-identifying value submitted with a request.
#[derive(Clone, Copy, PartialEq, Eq, Structural, Debug)]
pub enum PII {
    Email,
    Phone,
    Username,
    Hash,
    Ip,
    Name,
    Password,
}

/// Everything that can go wrong in the gateway core, by kind.
///
/// The propagation policy: `AuthError`, `InvalidCombination`,
/// `InvalidUsername`, `UnknownUser` and `InsufficientBalance` short-circuit a
/// request before any paid upstream call; `UpstreamError` aborts without
/// charging; a `LedgerError` during balance verification aborts without
/// charging, while one raised by the usage-log append after a successful
/// debit is swallowed by the settle step.
#[derive(Clone, Copy, PartialEq, Eq, Structural, Debug)]
pub enum AppError {
    /// Missing or invalid system key, or a missing customer key header.
    AuthError,
    /// The customer key matches no ledger record.
    UnknownUser,
    /// The customer's balance does not cover the route's cost.
    InsufficientBalance,
    /// The (provider, attribute kind) pair is not in the route table.
    InvalidCombination,
    /// The username failed the enumeration pre-flight filter.
    InvalidUsername,
    /// A provider call failed: network error, bad status, or bad payload.
    UpstreamError,
    /// A ledger round trip failed.
    LedgerError,
}

impl AppError {
    /// A short diagnostic text for the JSON error body.
    pub fn message(&self) -> (r: &'static str)
        ensures
            r@ == self.spec_message(),
    {
        match self {
            AppError::AuthError => "Invalid or missing API key!",
            AppError::UnknownUser => "User API key does not exist!",
            AppError::InsufficientBalance => "Balance is insufficient for cost!",
            AppError::InvalidCombination => "Invalid PII type for this API!",
            AppError::InvalidUsername => "Username would produce very poor results!",
            AppError::UpstreamError => "Failed to query the upstream provider!",
            AppError::LedgerError => "Failed to reach the ledger!",
        }
    }

    /// What `message` returns, as a sequence of characters.
    pub open spec fn spec_message(&self) -> Seq<char> {
        match self {
            AppError::AuthError => "Invalid or missing API key!"@,
            AppError::UnknownUser => "User API key does not exist!"@,
            AppError::InsufficientBalance => "Balance is insufficient for cost!"@,
            AppError::InvalidCombination => "Invalid PII type for this API!"@,
            AppError::InvalidUsername => "Username would produce very poor results!"@,
            AppError::UpstreamError => "Failed to query the upstream provider!"@,
            AppError::LedgerError => "Failed to reach the ledger!"@,
        }
    }
}

} // verus!
