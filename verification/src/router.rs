//! The dispatch router: a fixed, exhaustive table from (provider, attribute
//! kind) to the adapter operation to invoke and the route's fixed credit
//! cost. Any pair outside the table is rejected with
//! [`AppError::InvalidCombination`] before any ledger or upstream round trip.

use vstd::prelude::*;

use crate::types::{API, PII, AppError};
use crate::{
    COST_PER_DB_SNUSBASE,
    COST_PER_GEO_SNUSBASE,
    COST_PER_HASHES_SNUSBASE,
    COST_PER_TELE_BULKVS,
    COST_PER_XREF_SHERLOCK,
};

verus! {

/// One typed query operation of a provider adapter.
#[derive(Clone, Copy, PartialEq, Eq, Structural, Debug)]
pub enum AdapterOp {
    SnusbaseByEmail,
    SnusbaseByUsername,
    SnusbaseByHash,
    SnusbaseByLastIp,
    SnusbaseByName,
    SnusbaseByPassword,
    SnusbaseRehash,
    SnusbaseDehash,
    SnusbaseWhois,
    BulkVSCnam,
    SherlockEnumerate,
}

/// A resolved route: the adapter operation to invoke and its fixed cost in
/// credits.
#[derive(Clone, Copy, PartialEq, Eq, Structural, Debug)]
pub struct Route {
    pub cost: i32,
    pub op: AdapterOp,
}

/// Whether the fixed route table has an entry for the pair.
pub open spec fn spec_route_allowed(api: API, pii: PII) -> bool {
    match (api, pii) {
        (API::SnusbaseQuery, PII::Email) => true,
        (API::SnusbaseQuery, PII::Username) => true,
        (API::SnusbaseQuery, PII::Hash) => true,
        (API::SnusbaseQuery, PII::Ip) => true,
        (API::SnusbaseQuery, PII::Name) => true,
        (API::SnusbaseQuery, PII::Password) => true,
        (API::SnusbaseHashing, PII::Password) => true,
        (API::SnusbaseHashing, PII::Hash) => true,
        (API::SnusbaseGeolocation, PII::Ip) => true,
        (API::BulkVS, PII::Phone) => true,
        (API::Sherlock, PII::Username) => true,
        _ => false,
    }
}

/// The route table entry for an allowed pair.
pub open spec fn spec_route(api: API, pii: PII) -> Route
    recommends
        spec_route_allowed(api, pii),
{
    match (api, pii) {
        (API::SnusbaseQuery, PII::Email) => Route {
            cost: COST_PER_DB_SNUSBASE,
            op: AdapterOp::SnusbaseByEmail,
        },
        (API::SnusbaseQuery, PII::Username) => Route {
            cost: COST_PER_DB_SNUSBASE,
            op: AdapterOp::SnusbaseByUsername,
        },
        (API::SnusbaseQuery, PII::Hash) => Route {
            cost: COST_PER_DB_SNUSBASE,
            op: AdapterOp::SnusbaseByHash,
        },
        (API::SnusbaseQuery, PII::Ip) => Route {
            cost: COST_PER_DB_SNUSBASE,
            op: AdapterOp::SnusbaseByLastIp,
        },
        (API::SnusbaseQuery, PII::Name) => Route {
            cost: COST_PER_DB_SNUSBASE,
            op: AdapterOp::SnusbaseByName,
        },
        (API::SnusbaseQuery, PII::Password) => Route {
            cost: COST_PER_DB_SNUSBASE,
            op: AdapterOp::SnusbaseByPassword,
        },
        (API::SnusbaseHashing, PII::Password) => Route {
            cost: COST_PER_HASHES_SNUSBASE,
            op: AdapterOp::SnusbaseRehash,
        },
        (API::SnusbaseHashing, PII::Hash) => Route {
            cost: COST_PER_HASHES_SNUSBASE,
            op: AdapterOp::SnusbaseDehash,
        },
        (API::SnusbaseGeolocation, PII::Ip) => Route {
            cost: COST_PER_GEO_SNUSBASE,
            op: AdapterOp::SnusbaseWhois,
        },
        (API::BulkVS, PII::Phone) => Route {
            cost: COST_PER_TELE_BULKVS,
            op: AdapterOp::BulkVSCnam,
        },
        (API::Sherlock, PII::Username) => Route {
            cost: COST_PER_XREF_SHERLOCK,
            op: AdapterOp::SherlockEnumerate,
        },
        _ => Route { cost: 0, op: AdapterOp::SnusbaseByEmail },
    }
}

/// Look the pair up in the fixed route table. Fails with
/// `InvalidCombination`, and only with it, exactly on the pairs outside the
/// table; this runs before balance verification and before any upstream
/// call, so a malformed request consumes no round trip.
pub fn resolve(api: API, pii: PII) -> (r: Result<Route, AppError>)
    ensures
        r is Ok <==> spec_route_allowed(api, pii),
        r is Ok ==> r->Ok_0 == spec_route(api, pii),
        r is Err ==> r->Err_0 == AppError::InvalidCombination,
{
    match (api, pii) {
        (API::SnusbaseQuery, PII::Email) => Ok(Route {
            cost: COST_PER_DB_SNUSBASE,
            op: AdapterOp::SnusbaseByEmail,
        }),
        (API::SnusbaseQuery, PII::Username) => Ok(Route {
            cost: COST_PER_DB_SNUSBASE,
            op: AdapterOp::SnusbaseByUsername,
        }),
        (API::SnusbaseQuery, PII::Hash) => Ok(Route {
            cost: COST_PER_DB_SNUSBASE,
            op: AdapterOp::SnusbaseByHash,
        }),
        (API::SnusbaseQuery, PII::Ip) => Ok(Route {
            cost: COST_PER_DB_SNUSBASE,
            op: AdapterOp::SnusbaseByLastIp,
        }),
        (API::SnusbaseQuery, PII::Name) => Ok(Route {
            cost: COST_PER_DB_SNUSBASE,
            op: AdapterOp::SnusbaseByName,
        }),
        (API::SnusbaseQuery, PII::Password) => Ok(Route {
            cost: COST_PER_DB_SNUSBASE,
            op: AdapterOp::SnusbaseByPassword,
        }),
        (API::SnusbaseHashing, PII::Password) => Ok(Route {
            cost: COST_PER_HASHES_SNUSBASE,
            op: AdapterOp::SnusbaseRehash,
        }),
        (API::SnusbaseHashing, PII::Hash) => Ok(Route {
            cost: COST_PER_HASHES_SNUSBASE,
            op: AdapterOp::SnusbaseDehash,
        }),
        (API::SnusbaseGeolocation, PII::Ip) => Ok(Route {
            cost: COST_PER_GEO_SNUSBASE,
            op: AdapterOp::SnusbaseWhois,
        }),
        (API::BulkVS, PII::Phone) => Ok(Route {
            cost: COST_PER_TELE_BULKVS,
            op: AdapterOp::BulkVSCnam,
        }),
        (API::Sherlock, PII::Username) => Ok(Route {
            cost: COST_PER_XREF_SHERLOCK,
            op: AdapterOp::SherlockEnumerate,
        }),
        _ => Err(AppError::InvalidCombination),
    }
}

} // verus!
