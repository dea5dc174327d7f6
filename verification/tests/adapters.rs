//! The provider adapters' logic and the text helpers they lean on.

use metered_gateway::apis::bulkvs::{cnam_name, cnam_tally, BulkVS, BulkVSPhoneNumberResponse};
use metered_gateway::apis::sherlock::{sherlock_tally, Sherlock};
use metered_gateway::apis::snusbase::{SnusbaseDBResponse, Snusbase};
use metered_gateway::records::{Dataset, Field, Record};
use metered_gateway::text::{contains_char, contains_substr, split_commas, str_equal};
use metered_gateway::types::AppError;

fn record(pairs: &[(&str, &str)]) -> Record {
    Record {
        fields: pairs
            .iter()
            .map(|(k, v)| Field { name: k.to_string(), value: v.to_string() })
            .collect(),
    }
}

#[test]
fn cnam_reply_without_name_counts_no_name() {
    // A backend reply of `{"name": null}`: the lookup succeeded, no name was
    // found, and billing still applies to the successful call itself.
    let resp = BulkVSPhoneNumberResponse { name: None, number: Some("15550100".to_string()), time: Some(0) };
    assert!(cnam_name(&resp).is_none());
    let t = cnam_tally(&resp);
    assert_eq!(t.names, 0);
}

#[test]
fn cnam_sentinel_counts_as_no_name() {
    let resp = BulkVSPhoneNumberResponse {
        name: Some("INVALID CALL".to_string()),
        number: None,
        time: None,
    };
    assert!(cnam_name(&resp).is_none());
    assert_eq!(cnam_tally(&resp).names, 0);
}

#[test]
fn cnam_real_name_counts_one() {
    let resp = BulkVSPhoneNumberResponse {
        name: Some("ACME CORP".to_string()),
        number: Some("15550100".to_string()),
        time: Some(1),
    };
    assert_eq!(cnam_name(&resp).unwrap().as_str(), "ACME CORP");
    assert_eq!(cnam_tally(&resp).names, 1);
}

#[test]
fn bulkvs_holds_its_credential() {
    let b = BulkVS::new("token".to_string());
    assert_eq!(b.api_key, "token");
}

#[test]
fn username_with_space_fails_validation_before_any_call() {
    // The pre-flight filter rejects the username; no session is opened and
    // nothing is billed for it.
    assert!(!Sherlock::is_valid_sherlock_username("bad username", false));
    let s = Sherlock::new();
    let r = s.get_and_stringify_potential_profiles(
        "bad username".to_string(),
        false,
        vec!["http://would-have-matched".to_string()],
    );
    assert_eq!(r.unwrap_err(), AppError::InvalidUsername);
}

#[test]
fn username_filter_rules() {
    assert!(Sherlock::is_valid_sherlock_username("alice", false));
    assert!(!Sherlock::is_valid_sherlock_username("", false));
    assert!(!Sherlock::is_valid_sherlock_username("9lice", false));
    assert!(!Sherlock::is_valid_sherlock_username("ali.ce", false));
    assert!(!Sherlock::is_valid_sherlock_username("ali-ce", false));
    assert!(!Sherlock::is_valid_sherlock_username("ali_ce", false));
    assert!(!Sherlock::is_valid_sherlock_username("ali#ce", false));
    // Twenty characters is the longest allowed.
    assert!(Sherlock::is_valid_sherlock_username("abcdefghijklmnopqrst", false));
    assert!(!Sherlock::is_valid_sherlock_username("abcdefghijklmnopqrstu", false));
    // The override flag admits anything.
    assert!(Sherlock::is_valid_sherlock_username("bad username", true));
    assert!(Sherlock::is_valid_sherlock_username("", true));
}

#[test]
fn enumeration_keeps_exactly_the_url_messages() {
    let s = Sherlock::new();
    let messages = vec![
        "found https://example.com/alice".to_string(),
        "checking site two".to_string(),
        "found http://other.example/alice".to_string(),
        "".to_string(),
    ];
    let resp = s
        .get_and_stringify_potential_profiles("alice".to_string(), false, messages)
        .unwrap();
    assert_eq!(resp.username, "alice");
    assert_eq!(
        resp.sites,
        vec![
            "found https://example.com/alice".to_string(),
            "found http://other.example/alice".to_string(),
        ]
    );
    assert_eq!(sherlock_tally(&resp).usernames, 2);
}

#[test]
fn snusbase_requests_shape_terms_and_types() {
    let s = Snusbase::new("token".to_string());
    let r = s.get_by_email("a@b".to_string());
    assert_eq!(r.terms, vec!["a@b".to_string()]);
    assert_eq!(r.types, vec!["email".to_string()]);
    assert!(!r.wildcard);
    assert_eq!(s.get_by_username("u".to_string()).types, vec!["username".to_string()]);
    // The last-IP search queries the provider's own field name.
    assert_eq!(s.get_by_last_ip("1.2.3.4".to_string()).types, vec!["lastip".to_string()]);
    assert_eq!(s.get_by_password("pw".to_string()).types, vec!["password".to_string()]);
    assert_eq!(s.get_by_name("n".to_string()).types, vec!["name".to_string()]);
    assert_eq!(s.get_by_hash("h".to_string()).types, vec!["hash".to_string()]);
    assert_eq!(s.rehash("pw".to_string()).types, vec!["password".to_string()]);
    assert_eq!(s.dehash("h".to_string()).types, vec!["hash".to_string()]);
}

#[test]
fn whois_rejects_an_empty_batch() {
    let s = Snusbase::new("token".to_string());
    assert_eq!(s.whois_ip_query(vec![]).unwrap_err(), AppError::UpstreamError);
    assert_eq!(
        s.whois_ip_query(vec!["1.2.3.4".to_string()]).unwrap(),
        vec!["1.2.3.4".to_string()]
    );
}

#[test]
fn db_response_flattens_and_collects() {
    let resp = SnusbaseDBResponse {
        took: 1,
        size: 3,
        results: vec![
            Dataset {
                name: "breach_one".to_string(),
                entries: vec![
                    record(&[("username", "u1"), ("address", "addr1")]),
                    record(&[("username", "u2"), ("zip", "11111")]),
                ],
            },
            Dataset {
                name: "breach_two".to_string(),
                entries: vec![record(&[("username", "u3"), ("address", "addr2"), ("zip", "22222")])],
            },
        ],
    };
    assert_eq!(resp.dumps(), vec!["breach_one".to_string(), "breach_two".to_string()]);
    let recs = resp.all_records();
    assert_eq!(recs.len(), 3);
    assert_eq!(
        resp.values_for_key("username"),
        vec!["u1".to_string(), "u2".to_string(), "u3".to_string()]
    );
    // The address collector prefers address over zip within one record.
    assert_eq!(
        resp.addresses(),
        vec!["addr1".to_string(), "11111".to_string(), "addr2".to_string()]
    );
}

#[test]
fn split_commas_matches_std_split() {
    for input in ["", "a", "a,b", "a,,b", ",a", "a,", "k1,k2,k3"] {
        let expected: Vec<String> = input.split(',').map(|s| s.to_string()).collect();
        assert_eq!(split_commas(input), expected, "splitting {:?}", input);
    }
}

#[test]
fn substring_and_char_search() {
    assert!(contains_substr("say http please", "http"));
    assert!(contains_substr("https", "http"));
    assert!(contains_substr("http", "http"));
    assert!(!contains_substr("htt p", "http"));
    assert!(contains_substr("anything", ""));
    assert!(!contains_substr("", "x"));
    assert!(contains_char("a b", ' '));
    assert!(!contains_char("ab", ' '));
    assert!(str_equal(&"same".to_string(), "same"));
    assert!(!str_equal(&"same".to_string(), "Same"));
}

#[test]
fn other_fields_joins_name_and_value() {
    let resp = SnusbaseDBResponse {
        took: 0,
        size: 1,
        results: vec![Dataset {
            name: "breach".to_string(),
            entries: vec![record(&[
                ("username", "u1"),
                ("shoe_size", "42"),
                ("hash", "h1"),
            ])],
        }],
    };
    // The flat summary skips its own list of names; `hash` is not on it.
    assert_eq!(
        resp.other_fields(),
        vec!["shoe_size: 42".to_string(), "hash: h1".to_string()]
    );
}
