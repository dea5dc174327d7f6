//! The tally normalizer: deduplication, aliasing, seeding, the other bucket,
//! and the specialized summaries.

use metered_gateway::records::{Field, Record};
use metered_gateway::tally::{
    count_other, count_values, dehash_tally, geo_tally, rehash_tally, summarize, Tally,
};
use metered_gateway::types::PII;

fn record(pairs: &[(&str, &str)]) -> Record {
    Record {
        fields: pairs
            .iter()
            .map(|(k, v)| Field { name: k.to_string(), value: v.to_string() })
            .collect(),
    }
}

fn zero() -> Tally {
    Tally::empty()
}

#[test]
fn counts_distinct_values_per_category() {
    let recs = vec![
        record(&[("username", "u1"), ("email", "e1")]),
        record(&[("username", "u1"), ("email", "e2")]),
        record(&[("username", "u2")]),
    ];
    let t = summarize(&recs, PII::Name, &"queried".to_string());
    let expected = Tally { usernames: 2, emails: 2, ..zero() };
    assert_eq!(t, expected);
}

#[test]
fn field_aliasing_feeds_one_ip_category() {
    // One record says last_ip, another says ip, with the same value: one IP.
    let recs = vec![
        record(&[("last_ip", "1.2.3.4")]),
        record(&[("ip", "1.2.3.4")]),
    ];
    let t = summarize(&recs, PII::Name, &"q".to_string());
    assert_eq!(t.ips, 1);
    let recs2 = vec![
        record(&[("last_ip", "1.2.3.4")]),
        record(&[("lastip", "5.6.7.8")]),
        record(&[("ip", "1.2.3.4")]),
    ];
    let t2 = summarize(&recs2, PII::Name, &"q".to_string());
    assert_eq!(t2.ips, 2);
}

#[test]
fn zip_feeds_the_addresses_category() {
    let recs = vec![
        record(&[("address", "1 Main St")]),
        record(&[("zip", "99999")]),
        record(&[("zip", "99999")]),
    ];
    let t = summarize(&recs, PII::Name, &"q".to_string());
    assert_eq!(t.addresses, 2);
    assert_eq!(t.other, 0);
}

#[test]
fn queried_value_is_not_counted_in_its_own_category() {
    // The provider echoes the queried email back; it must not inflate the
    // count.
    let recs = vec![
        record(&[("email", "a@b")]),
        record(&[("email", "c@d")]),
    ];
    let t = summarize(&recs, PII::Email, &"a@b".to_string());
    assert_eq!(t.emails, 1);
    // The same records under a different queried value count both.
    let t2 = summarize(&recs, PII::Email, &"x@y".to_string());
    assert_eq!(t2.emails, 2);
    // The seed only shields its own category.
    let recs3 = vec![record(&[("username", "a@b")])];
    let t3 = summarize(&recs3, PII::Email, &"a@b".to_string());
    assert_eq!(t3.usernames, 1);
}

#[test]
fn unrecognized_fields_feed_other_deduplicated_by_value() {
    let recs = vec![
        record(&[("shoe_size", "42"), ("favourite_number", "42")]),
        record(&[("shoe_size", "43")]),
    ];
    let t = summarize(&recs, PII::Name, &"q".to_string());
    // "42" appears under two unrecognized names but counts once.
    assert_eq!(t.other, 2);
}

#[test]
fn permuting_records_yields_identical_counts() {
    let a = record(&[("username", "u1"), ("email", "e1"), ("oddity", "x")]);
    let b = record(&[("username", "u2"), ("ip", "9.9.9.9")]);
    let c = record(&[("last_ip", "9.9.9.9"), ("salt", "s1")]);
    let forward = vec![a.duplicate(), b.duplicate(), c.duplicate()];
    let backward = vec![c.duplicate(), b.duplicate(), a.duplicate()];
    let q = "u1".to_string();
    assert_eq!(summarize(&forward, PII::Username, &q), summarize(&backward, PII::Username, &q));
}

#[test]
fn all_recognized_categories_are_counted() {
    let recs = vec![record(&[
        ("username", "u"),
        ("email", "e"),
        ("phone", "p"),
        ("hash", "h"),
        ("salt", "s"),
        ("ip", "i"),
        ("name", "n"),
        ("password", "w"),
        ("address", "a"),
        ("company", "c"),
        ("extra", "x"),
    ])];
    let t = summarize(&recs, PII::Phone, &"other-phone".to_string());
    let expected = Tally {
        usernames: 1,
        emails: 1,
        phones: 1,
        hashes: 1,
        salts: 1,
        ips: 1,
        names: 1,
        passwords: 1,
        addresses: 1,
        companies: 1,
        other: 1,
    };
    assert_eq!(t, expected);
}

#[test]
fn empty_reply_summarizes_to_zero() {
    let recs: Vec<Record> = vec![];
    let t = summarize(&recs, PII::Email, &"q".to_string());
    assert_eq!(t, zero());
}

#[test]
fn duplicate_keys_in_one_record_count_first_value_only() {
    // A record that lists the same field name twice: the lookup reads the
    // first occurrence.
    let recs = vec![record(&[("email", "a@b"), ("email", "c@d")])];
    let t = summarize(&recs, PII::Name, &"q".to_string());
    assert_eq!(t.emails, 1);
}

#[test]
fn rehash_counts_hashes_and_salts_only() {
    let recs = vec![
        record(&[("hash", "h1"), ("salt", "s1"), ("password", "ignored")]),
        record(&[("hash", "h1"), ("salt", "s2")]),
    ];
    let t = rehash_tally(&recs);
    let expected = Tally { hashes: 1, salts: 2, ..zero() };
    assert_eq!(t, expected);
}

#[test]
fn dehash_counts_passwords_only() {
    let recs = vec![
        record(&[("password", "pw1"), ("hash", "ignored")]),
        record(&[("password", "pw1")]),
        record(&[("password", "pw2")]),
    ];
    let t = dehash_tally(&recs);
    let expected = Tally { passwords: 2, ..zero() };
    assert_eq!(t, expected);
}

#[test]
fn geo_counts_per_entry_without_dedup() {
    let contents = vec![
        record(&[("company", "Acme"), ("lat", "1"), ("lon", "2")]),
        record(&[("org", "Acme")]),
        record(&[("lat", "1")]),
    ];
    let t = geo_tally(&contents);
    let expected = Tally { companies: 2, addresses: 1, ..zero() };
    assert_eq!(t, expected);
}

#[test]
fn count_values_seeds_and_dedups() {
    let recs = vec![
        record(&[("hash", "h1")]),
        record(&[("hash", "h2")]),
        record(&[("hash", "h1")]),
    ];
    let keys = vec!["hash".to_string()];
    assert_eq!(count_values(&recs, &keys, None), 2);
    let seed = "h1".to_string();
    assert_eq!(count_values(&recs, &keys, Some(&seed)), 1);
}

#[test]
fn count_other_ignores_recognized_names() {
    let recs = vec![record(&[("email", "e"), ("weird", "w")])];
    assert_eq!(count_other(&recs), 1);
}
