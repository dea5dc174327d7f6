//! The credit guard and the shared pre-dispatch gate of every billed route:
//! authenticate the system key, resolve the route, verify the customer's
//! balance — all before any paid upstream call — and, after a successful
//! call, settle: debit the customer and append a usage-log entry whose
//! failure is swallowed.

use vstd::prelude::*;

use crate::apis::database::{
    spec_find_index,
    spec_find_user,
    lemma_find_index_characterization,
    lemma_find_index_first,
    APIUsage,
    NocoDB,
    User,
};
use crate::router::{resolve, spec_route, spec_route_allowed, Route};
use crate::text::{spec_split_commas, split_commas};
use crate::types::{API, AppError, PII};

verus! {

/// The characters of an optional header value.
pub open spec fn spec_opt_view(o: Option<&String>) -> Option<Seq<char>> {
    match o {
        Some(s) => Some(s@),
        None => None,
    }
}

/// Whether a request authenticates: it presents a system key, and the key is
/// in the comma-separated allow-list.
pub open spec fn spec_auth_ok(keys_csv: Seq<char>, auth: Option<Seq<char>>) -> bool {
    match auth {
        Some(a) => spec_split_commas(keys_csv).contains(a),
        None => false,
    }
}

/// Whether the key is one of the allowed system keys.
pub fn verify_api_key(keys: &Vec<String>, api_key: &String) -> (r: bool)
    ensures
        r == keys.deep_view().contains(api_key@),
{
    let n = keys.len();
    let mut i: usize = 0;
    while i < n
        invariant
            n == keys@.len(),
            i <= n,
            forall|j: int| 0 <= j < i ==> keys.deep_view()[j] != api_key@,
        decreases n - i,
    {
        assert(keys.deep_view()[i as int] == keys@[i as int]@);
        if crate::text::str_equal(&keys[i], api_key.as_str()) {
            assert(keys.deep_view().contains(api_key@));
            return true;
        }
        i = i + 1;
    }
    assert(!keys.deep_view().contains(api_key@));
    false
}

/// Authenticate a request against the allow-list: fails with `AuthError`,
/// and only with it, exactly when the header is missing or its key is not
/// listed.
pub fn verify_api_key_header(keys_csv: &str, auth: Option<&String>) -> (r: Result<(), AppError>)
    ensures
        r is Ok <==> spec_auth_ok(keys_csv@, spec_opt_view(auth)),
        r is Err ==> r->Err_0 == AppError::AuthError,
{
    match auth {
        None => Err(AppError::AuthError),
        Some(key) => {
            let keys = split_commas(keys_csv);
            if verify_api_key(&keys, key) {
                Ok(())
            } else {
                Err(AppError::AuthError)
            }
        },
    }
}

/// What balance verification decides for a customer key and a cost.
pub open spec fn spec_verify_decision(
    users: Seq<User>,
    user_key: Option<Seq<char>>,
    cost: i32,
) -> Result<(), AppError> {
    match user_key {
        None => Err(AppError::AuthError),
        Some(k) => match spec_find_user(users, k) {
            None => Err(AppError::UnknownUser),
            Some(u) => if u.balance >= cost {
                Ok(())
            } else {
                Err(AppError::InsufficientBalance)
            },
        },
    }
}

/// Verify that the customer the header names can cover the cost. Read-only:
/// fails with `AuthError` when the header is missing, `UnknownUser` when the
/// key matches no record, and `InsufficientBalance` exactly when the balance
/// is below the cost.
pub fn verify_user_api_key_has_balance(db: &NocoDB, user_key: Option<&String>, cost: i32) -> (r:
    Result<(), AppError>)
    ensures
        r == spec_verify_decision(db.users@, spec_opt_view(user_key), cost),
{
    match user_key {
        None => Err(AppError::AuthError),
        Some(k) => {
            match db.get_user(k.clone()) {
                Err(e) => Err(e),
                Ok(user) => {
                    if user.balance >= cost {
                        Ok(())
                    } else {
                        Err(AppError::InsufficientBalance)
                    }
                },
            }
        },
    }
}

/// What the whole pre-dispatch gate decides: authentication first, then the
/// route table, then the customer and the balance. Only a request that
/// passes everything reaches a paid upstream call.
pub open spec fn spec_gate_decision(
    users: Seq<User>,
    keys_csv: Seq<char>,
    auth: Option<Seq<char>>,
    user_key: Option<Seq<char>>,
    api: API,
    pii: PII,
) -> Result<Route, AppError> {
    if !spec_auth_ok(keys_csv, auth) {
        Err(AppError::AuthError)
    } else if !spec_route_allowed(api, pii) {
        Err(AppError::InvalidCombination)
    } else {
        match spec_verify_decision(users, user_key, spec_route(api, pii).cost) {
            Ok(_) => Ok(spec_route(api, pii)),
            Err(e) => Err(e),
        }
    }
}

/// The pre-dispatch gate of a billed request: authenticate, resolve the
/// route, verify the balance. Read-only, and run in full before any paid
/// upstream call, so every rejection leaves the ledger untouched and costs
/// no upstream round trip.
pub fn authorize_and_verify(
    db: &NocoDB,
    keys_csv: &str,
    auth: Option<&String>,
    user_key: Option<&String>,
    api: API,
    pii: PII,
) -> (r: Result<Route, AppError>)
    ensures
        r == spec_gate_decision(
            db.users@,
            keys_csv@,
            spec_opt_view(auth),
            spec_opt_view(user_key),
            api,
            pii,
        ),
{
    if let Err(e) = verify_api_key_header(keys_csv, auth) {
        return Err(e);
    }
    let route = match resolve(api, pii) {
        Err(e) => {
            return Err(e);
        },
        Ok(route) => route,
    };
    match verify_user_api_key_has_balance(db, user_key, route.cost) {
        Err(e) => Err(e),
        Ok(_) => Ok(route),
    }
}

/// A pair absent from the fixed route table is rejected with
/// `InvalidCombination`, whatever the ledger holds: the decision is the same
/// for every store, so no ledger record influences it and no upstream call
/// follows it.
pub proof fn lemma_invalid_combination_rejected(
    users: Seq<User>,
    keys_csv: Seq<char>,
    auth: Option<Seq<char>>,
    user_key: Option<Seq<char>>,
    api: API,
    pii: PII,
)
    requires
        spec_auth_ok(keys_csv, auth),
        !spec_route_allowed(api, pii),
    ensures
        spec_gate_decision(users, keys_csv, auth, user_key, api, pii) == Err::<Route, AppError>(
            AppError::InvalidCombination,
        ),
{
}

/// A customer whose balance is below the route's cost is rejected with
/// `InsufficientBalance`; the decision reads the store and changes nothing,
/// so the stored balance remains what it was.
pub proof fn lemma_insufficient_balance_rejected(
    users: Seq<User>,
    keys_csv: Seq<char>,
    auth: Option<Seq<char>>,
    k: Seq<char>,
    api: API,
    pii: PII,
)
    requires
        spec_auth_ok(keys_csv, auth),
        spec_route_allowed(api, pii),
        spec_find_user(users, k) is Some,
        spec_find_user(users, k)->Some_0.balance < spec_route(api, pii).cost,
    ensures
        spec_gate_decision(users, keys_csv, auth, Some(k), api, pii) == Err::<Route, AppError>(
            AppError::InsufficientBalance,
        ),
{
}

/// Settle a billed request after a successful provider call: debit the cost
/// from the customer's balance, flooring at zero, then attempt the usage-log
/// append. `log_round_trip_ok` is whether that remote append round trip
/// succeeded; when it did not, the failure is swallowed — the debit stands
/// and the request still reports success.
pub fn deduct_cost_and_log(
    db: &mut NocoDB,
    user_key: Option<&String>,
    category: String,
    service: String,
    pii_type: PII,
    pii: String,
    cost: i32,
    log_round_trip_ok: bool,
) -> (r: Result<(), AppError>)
    requires
        old(db).wf(),
        cost >= 0,
    ensures
        final (db).wf(),
        match spec_opt_view(user_key) {
            None => r == Err::<(), AppError>(AppError::AuthError) && *final (db) == *old(db),
            Some(k) => match spec_find_index(old(db).users@, k) {
                None => r == Err::<(), AppError>(AppError::UnknownUser) && *final (db) == *old(
                    db,
                ),
                Some(i) => {
                    &&& r is Ok
                    &&& {
                        let before = old(db).users@[i];
                        let after = final (db).users@[i];
                        &&& final (db).users@.len() == old(db).users@.len()
                        &&& after.api_key@ == before.api_key@
                        &&& after.id == before.id
                        &&& after.balance == NocoDB::spec_offset(
                            before.balance as int,
                            -cost as int,
                        )
                        &&& forall|j: int|
                            0 <= j < old(db).users@.len() && j != i ==> final (db).users@[j]
                                == old(db).users@[j]
                    }
                    &&& log_round_trip_ok ==> {
                        let added = final (db).logs@.last();
                        &&& final (db).logs@ == old(db).logs@.push(added)
                        &&& added.user_api_key@ == k
                        &&& added.entry.category@ == category@
                        &&& added.entry.service@ == service@
                        &&& added.entry.pii_type == pii_type
                        &&& added.entry.pii@ == pii@
                        &&& added.entry.cost == cost
                    }
                    &&& !log_round_trip_ok ==> final (db).logs@ == old(db).logs@
                },
            },
        },
{
    let k = match user_key {
        None => {
            return Err(AppError::AuthError);
        },
        Some(k) => k,
    };
    proof {
        lemma_find_index_characterization(db.users@, k@);
        if spec_find_user(db.users@, k@) is Some {
            assert(spec_find_user(db.users@, k@)->Some_0.balance + (-cost as int) <= i32::MAX);
        }
    }
    let debited = match db.offset_balance(k.clone(), 0 - cost) {
        Err(e) => {
            return Err(e);
        },
        Ok(u) => u,
    };
    proof {
        let i = spec_find_index(old(db).users@, k@)->Some_0;
        lemma_find_index_characterization(old(db).users@, k@);
        assert(db.users@[i].api_key@ == k@);
        assert(forall|j: int| 0 <= j < i ==> #[trigger] db.users@[j].api_key@ != k@);
        lemma_find_index_first(db.users@, k@, i);
    }
    if log_round_trip_ok {
        let entry = APIUsage { category, service, pii_type, pii, cost, id: None };
        match db.create_api_usage_log(entry, k.clone()) {
            Ok(_) => Ok(()),
            Err(_) => Ok(()),
        }
    } else {
        Ok(())
    }
}

} // verus!
