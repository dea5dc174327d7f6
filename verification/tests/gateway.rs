//! Routing, authentication, balance verification and settlement.

use metered_gateway::apis::database::{NocoDB, User};
use metered_gateway::guard::{
    authorize_and_verify, deduct_cost_and_log, verify_api_key_header,
    verify_user_api_key_has_balance,
};
use metered_gateway::router::{resolve, AdapterOp};
use metered_gateway::types::{API, AppError, PII};

fn store_with(users: Vec<(&str, i32)>) -> NocoDB {
    let mut db = NocoDB::new();
    for (key, balance) in users {
        db.create_user(User { api_key: key.to_string(), balance, id: None })
            .expect("fresh key");
    }
    db
}

fn balance_of(db: &NocoDB, key: &str) -> i32 {
    db.get_user(key.to_string()).expect("user exists").balance
}

#[test]
fn resolve_known_routes_and_costs() {
    assert_eq!(resolve(API::SnusbaseQuery, PII::Email).unwrap().cost, 30);
    assert_eq!(resolve(API::SnusbaseQuery, PII::Username).unwrap().cost, 30);
    assert_eq!(resolve(API::SnusbaseQuery, PII::Hash).unwrap().cost, 30);
    assert_eq!(resolve(API::SnusbaseQuery, PII::Ip).unwrap().cost, 30);
    assert_eq!(resolve(API::SnusbaseQuery, PII::Name).unwrap().cost, 30);
    assert_eq!(resolve(API::SnusbaseQuery, PII::Password).unwrap().cost, 30);
    assert_eq!(resolve(API::SnusbaseGeolocation, PII::Ip).unwrap().cost, 15);
    assert_eq!(resolve(API::SnusbaseHashing, PII::Password).unwrap().cost, 15);
    assert_eq!(resolve(API::SnusbaseHashing, PII::Hash).unwrap().cost, 15);
    assert_eq!(resolve(API::BulkVS, PII::Phone).unwrap().cost, 50);
    assert_eq!(resolve(API::Sherlock, PII::Username).unwrap().cost, 10);
    assert_eq!(
        resolve(API::BulkVS, PII::Phone).unwrap().op,
        AdapterOp::BulkVSCnam
    );
    assert_eq!(
        resolve(API::Sherlock, PII::Username).unwrap().op,
        AdapterOp::SherlockEnumerate
    );
}

#[test]
fn resolve_rejects_every_pair_outside_the_table() {
    let apis = [
        API::SnusbaseQuery,
        API::SnusbaseHashing,
        API::SnusbaseGeolocation,
        API::BulkVS,
        API::Sherlock,
    ];
    let kinds = [
        PII::Email,
        PII::Phone,
        PII::Username,
        PII::Hash,
        PII::Ip,
        PII::Name,
        PII::Password,
    ];
    let mut rejected = 0;
    for api in apis {
        for pii in kinds {
            if let Err(e) = resolve(api, pii) {
                assert_eq!(e, AppError::InvalidCombination);
                rejected += 1;
            }
        }
    }
    // 5 * 7 pairs, 11 in the table.
    assert_eq!(rejected, 24);
}

#[test]
fn auth_header_checked_against_allow_list() {
    let key = "k2".to_string();
    assert!(verify_api_key_header("k1,k2,k3", Some(&key)).is_ok());
    let bad = "k4".to_string();
    assert_eq!(
        verify_api_key_header("k1,k2,k3", Some(&bad)),
        Err(AppError::AuthError)
    );
    assert_eq!(
        verify_api_key_header("k1,k2,k3", None),
        Err(AppError::AuthError)
    );
    // A key that is a substring of a listed key does not pass.
    let partial = "k".to_string();
    assert_eq!(
        verify_api_key_header("k1,k2", Some(&partial)),
        Err(AppError::AuthError)
    );
}

#[test]
fn verify_balance_decisions() {
    let db = store_with(vec![("alice", 40)]);
    let alice = "alice".to_string();
    let ghost = "nobody".to_string();
    assert!(verify_user_api_key_has_balance(&db, Some(&alice), 40).is_ok());
    assert_eq!(
        verify_user_api_key_has_balance(&db, Some(&alice), 41),
        Err(AppError::InsufficientBalance)
    );
    assert_eq!(
        verify_user_api_key_has_balance(&db, Some(&ghost), 1),
        Err(AppError::UnknownUser)
    );
    assert_eq!(
        verify_user_api_key_has_balance(&db, None, 1),
        Err(AppError::AuthError)
    );
}

#[test]
fn insufficient_balance_leaves_stored_balance_unchanged() {
    let db = store_with(vec![("bob", 29)]);
    let bob = "bob".to_string();
    let r = authorize_and_verify(&db, "sys", Some(&"sys".to_string()), Some(&bob), API::SnusbaseQuery, PII::Email);
    assert_eq!(r, Err(AppError::InsufficientBalance));
    assert_eq!(balance_of(&db, "bob"), 29);
}

#[test]
fn invalid_combination_rejected_before_ledger() {
    // The store holds no user at all: an unknown pair still fails with
    // InvalidCombination, never UnknownUser, because routing runs first.
    let db = NocoDB::new();
    let user = "whoever".to_string();
    let r = authorize_and_verify(&db, "sys", Some(&"sys".to_string()), Some(&user), API::BulkVS, PII::Email);
    assert_eq!(r, Err(AppError::InvalidCombination));
}

#[test]
fn gate_checks_auth_before_routing() {
    let db = store_with(vec![("carol", 100)]);
    let carol = "carol".to_string();
    let r = authorize_and_verify(&db, "sys", Some(&"wrong".to_string()), Some(&carol), API::BulkVS, PII::Email);
    assert_eq!(r, Err(AppError::AuthError));
}

#[test]
fn gate_passes_a_funded_request() {
    let db = store_with(vec![("carol", 100)]);
    let carol = "carol".to_string();
    let r = authorize_and_verify(&db, "sys", Some(&"sys".to_string()), Some(&carol), API::BulkVS, PII::Phone).unwrap();
    assert_eq!(r.cost, 50);
    assert_eq!(r.op, AdapterOp::BulkVSCnam);
}

#[test]
fn create_user_rejects_existing_key_and_mutates_nothing() {
    let mut db = store_with(vec![("alice", 40), ("bob", 7)]);
    let before: Vec<(String, i32)> = db
        .get_users()
        .iter()
        .map(|u| (u.api_key.clone(), u.balance))
        .collect();
    let r = db.create_user(User { api_key: "alice".to_string(), balance: 999, id: None });
    assert_eq!(r.unwrap_err(), AppError::LedgerError);
    let after: Vec<(String, i32)> = db
        .get_users()
        .iter()
        .map(|u| (u.api_key.clone(), u.balance))
        .collect();
    assert_eq!(before, after);
}

#[test]
fn create_user_assigns_identifier() {
    let mut db = NocoDB::new();
    let u = db
        .create_user(User { api_key: "dave".to_string(), balance: 5, id: None })
        .unwrap();
    assert_eq!(u.id, Some(0));
    assert_eq!(u.balance, 5);
    let v = db
        .create_user(User { api_key: "erin".to_string(), balance: 0, id: None })
        .unwrap();
    assert_eq!(v.id, Some(1));
}

#[test]
fn offset_balance_floors_at_zero() {
    let mut db = store_with(vec![("alice", 40)]);
    let u = db.offset_balance("alice".to_string(), -30).unwrap();
    assert_eq!(u.balance, 10);
    let u = db.offset_balance("alice".to_string(), -30).unwrap();
    assert_eq!(u.balance, 0);
    let u = db.offset_balance("alice".to_string(), 25).unwrap();
    assert_eq!(u.balance, 25);
    assert_eq!(
        db.offset_balance("nobody".to_string(), 5).unwrap_err(),
        AppError::UnknownUser
    );
}

#[test]
fn settle_debits_exactly_max_zero_balance_minus_cost() {
    let mut db = store_with(vec![("alice", 40)]);
    let alice = "alice".to_string();
    let r = deduct_cost_and_log(
        &mut db,
        Some(&alice),
        "Tele".to_string(),
        "BulkVS_CNAM".to_string(),
        PII::Phone,
        "15550100".to_string(),
        50,
        true,
    );
    assert!(r.is_ok());
    assert_eq!(balance_of(&db, "alice"), 0);
    assert_eq!(db.logs.len(), 1);
    assert_eq!(db.logs[0].entry.cost, 50);
    assert_eq!(db.logs[0].user_api_key, "alice");
}

#[test]
fn settle_swallows_a_failed_log_append() {
    let mut db = store_with(vec![("alice", 40)]);
    let alice = "alice".to_string();
    let r = deduct_cost_and_log(
        &mut db,
        Some(&alice),
        "DB".to_string(),
        "Snusbase".to_string(),
        PII::Email,
        "a@b".to_string(),
        30,
        false,
    );
    // The log round trip failed; the request still succeeds and the debit
    // stands.
    assert!(r.is_ok());
    assert_eq!(balance_of(&db, "alice"), 10);
    assert_eq!(db.logs.len(), 0);
}

#[test]
fn concurrent_settles_never_drive_balance_negative() {
    // Two requests for the same customer each pass verification against the
    // pre-decrement balance of 40 with a cost of 30; however the settles
    // interleave at the ledger, the balance ends non-negative.
    let mut db = store_with(vec![("alice", 40)]);
    let alice = "alice".to_string();
    assert!(verify_user_api_key_has_balance(&db, Some(&alice), 30).is_ok());
    assert!(verify_user_api_key_has_balance(&db, Some(&alice), 30).is_ok());
    for _ in 0..2 {
        deduct_cost_and_log(
            &mut db,
            Some(&alice),
            "DB".to_string(),
            "Snusbase".to_string(),
            PII::Email,
            "a@b".to_string(),
            30,
            true,
        )
        .unwrap();
    }
    let end = balance_of(&db, "alice");
    assert!(end >= 0);
    assert_eq!(end, 0);
}

#[test]
fn error_messages_name_each_kind() {
    assert_eq!(AppError::AuthError.message(), "Invalid or missing API key!");
    assert_eq!(AppError::UnknownUser.message(), "User API key does not exist!");
    assert_eq!(
        AppError::InsufficientBalance.message(),
        "Balance is insufficient for cost!"
    );
    assert_eq!(
        AppError::InvalidCombination.message(),
        "Invalid PII type for this API!"
    );
    assert_eq!(
        AppError::InvalidUsername.message(),
        "Username would produce very poor results!"
    );
}

#[test]
fn usage_log_links_entry_to_user() {
    let mut db = store_with(vec![("alice", 40)]);
    let entry = metered_gateway::apis::database::APIUsage {
        category: "Geo".to_string(),
        service: "Snusbase".to_string(),
        pii_type: PII::Ip,
        pii: "1.2.3.4".to_string(),
        cost: 15,
        id: None,
    };
    db.create_api_usage_log(entry, "alice".to_string()).unwrap();
    assert_eq!(db.logs.len(), 1);
    assert_eq!(db.logs[0].entry.id, Some(0));
    let entry2 = metered_gateway::apis::database::APIUsage {
        category: "Xref".to_string(),
        service: "Sherlock".to_string(),
        pii_type: PII::Username,
        pii: "alice".to_string(),
        cost: 10,
        id: None,
    };
    let missing = db.create_api_usage_log(entry2, "nobody".to_string());
    assert_eq!(missing.unwrap_err(), AppError::UnknownUser);
    assert_eq!(db.logs.len(), 1);
}

#[test]
fn cnam_null_name_is_billed_once_found_nothing() {
    // The full billed caller-id flow against the ledger model: the request
    // is authorized and funded, the backend replies with no name, the tally
    // shows none, and the cost is still charged for the successful call.
    let mut db = store_with(vec![("carol", 60)]);
    let carol = "carol".to_string();
    let route = authorize_and_verify(&db, "sys", Some(&"sys".to_string()), Some(&carol), API::BulkVS, PII::Phone).unwrap();
    let reply = metered_gateway::apis::bulkvs::BulkVSPhoneNumberResponse {
        name: None,
        number: Some("15550100".to_string()),
        time: Some(7),
    };
    let tally = metered_gateway::apis::bulkvs::cnam_tally(&reply);
    assert_eq!(tally.names, 0);
    deduct_cost_and_log(
        &mut db,
        Some(&carol),
        "Tele".to_string(),
        "BulkVS_CNAM".to_string(),
        PII::Phone,
        "15550100".to_string(),
        route.cost,
        true,
    )
    .unwrap();
    assert_eq!(balance_of(&db, "carol"), 10);
    assert_eq!(db.logs.len(), 1);
}
