//! A metered lookup gateway core: credit-gated dispatch and normalization.
//!
//! The crate verifies the logic of a gateway that resells lookups against
//! third-party person/data-search services: request authentication against a
//! system key list, per-customer balance verification, provider routing over a
//! fixed table, normalization of heterogeneous provider replies into one
//! canonical count summary, and best-effort cost accounting against a ledger
//! of prepaid users.

pub mod apis;
pub mod guard;
pub mod records;
pub mod router;
pub mod tally;
pub mod text;
pub mod types;

use vstd::prelude::*;

verus! {

/// Fixed credit cost of a raw record search against the breach-data provider.
pub const COST_PER_DB_SNUSBASE: i32 = 30;

/// Fixed credit cost of an IP geolocation lookup.
pub const COST_PER_GEO_SNUSBASE: i32 = 15;

/// Fixed credit cost of a password rehash / hash dehash lookup.
pub const COST_PER_HASHES_SNUSBASE: i32 = 15;

/// Fixed credit cost of a caller-id (CNAM) lookup.
pub const COST_PER_TELE_BULKVS: i32 = 50;

/// Fixed credit cost of a username-enumeration lookup.
pub const COST_PER_XREF_SHERLOCK: i32 = 10;

} // verus!
