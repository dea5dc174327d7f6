//! The caller-id (CNAM) provider adapter's logic: interpreting a lookup
//! reply. The HTTP round trip itself lives outside the library; the reply's
//! fields are handed in as plain values.

use vstd::prelude::*;

use crate::tally::{spec_empty_tally, Tally, TallyV};

verus! {

/// A caller-id lookup reply: the name and number found, and a timestamp.
#[derive(Debug)]
pub struct BulkVSPhoneNumberResponse {
    pub name: Option<String>,
    pub number: Option<String>,
    pub time: Option<i64>,
}

/// The caller-id provider's client state: its upstream credential.
#[derive(Debug)]
pub struct BulkVS {
    pub api_key: String,
}

impl BulkVS {
    /// A client holding the given upstream credential.
    pub fn new(api_key: String) -> (b: BulkVS)
        ensures
            b.api_key@ == api_key@,
    {
        BulkVS { api_key }
    }
}

/// Whether a reply found a name: the backend answers the sentinel text
/// instead of an error when it knows no name, so that text counts as no name
/// found.
pub open spec fn spec_cnam_found_name(resp: &BulkVSPhoneNumberResponse) -> bool {
    match resp.name {
        Some(n) => n@ != "INVALID CALL"@,
        None => false,
    }
}

/// The name a reply found, with the backend's sentinel for "no name found"
/// read as `None`.
pub fn cnam_name(resp: &BulkVSPhoneNumberResponse) -> (r: Option<&String>)
    ensures
        match r {
            Some(n) => spec_cnam_found_name(resp) && resp.name == Some(*n),
            None => !spec_cnam_found_name(resp),
        },
{
    match &resp.name {
        Some(n) => {
            if crate::text::str_equal(n, "INVALID CALL") {
                None
            } else {
                Some(n)
            }
        },
        None => None,
    }
}

/// The summary of a caller-id lookup: one name, or none.
pub open spec fn spec_cnam_tally(resp: &BulkVSPhoneNumberResponse) -> TallyV {
    TallyV { names: if spec_cnam_found_name(resp) {
        1nat
    } else {
        0nat
    }, ..spec_empty_tally() }
}

/// Summarize a caller-id lookup: `names` is one exactly when a name was
/// found and is not the backend's sentinel.
pub fn cnam_tally(resp: &BulkVSPhoneNumberResponse) -> (t: Tally)
    ensures
        t@ == spec_cnam_tally(resp),
{
    let mut t = Tally::empty();
    if cnam_name(resp).is_some() {
        t.names = 1;
    }
    t
}

} // verus!
