//! The breach-data provider adapter's logic: shaping each typed query into
//! the provider's search request, and reading its replies as bags of
//! records. The HTTP round trips themselves live outside the library.

use vstd::prelude::*;
use vstd::string::StringExecFns;

use crate::records::{Dataset, FieldV, Record};
use crate::types::AppError;

verus! {

/// The records of every dataset of a reply, flattened in order.
pub open spec fn spec_datasets_records(ds: Seq<Dataset>) -> Seq<Seq<FieldV>>
    decreases ds.len(),
{
    if ds.len() == 0 {
        Seq::empty()
    } else {
        spec_datasets_records(ds.drop_last()) + ds.last().entries_view()
    }
}

/// Flattening one more dataset appends its records.
pub proof fn lemma_datasets_records_push(ds: Seq<Dataset>, d: Dataset)
    ensures
        spec_datasets_records(ds.push(d)) == spec_datasets_records(ds) + d.entries_view(),
{
    assert(ds.push(d).drop_last() =~= ds);
    assert(ds.push(d).last() == d);
}

/// A raw record-search reply: named datasets of records.
#[derive(Debug)]
pub struct SnusbaseDBResponse {
    pub took: u32,
    pub size: u32,
    pub results: Vec<Dataset>,
}

impl SnusbaseDBResponse {
    /// The records of every dataset, flattened in order.
    pub open spec fn records_view(&self) -> Seq<Seq<FieldV>> {
        spec_datasets_records(self.results@)
    }

    /// The names of the datasets that matched.
    pub fn dumps(&self) -> (r: Vec<String>)
        ensures
            r.deep_view() == self.results@.map_values(|d: Dataset| d.name@),
    {
        let n = self.results.len();
        let mut out: Vec<String> = Vec::new();
        let mut i: usize = 0;
        while i < n
            invariant
                n == self.results@.len(),
                i <= n,
                out@.len() == i,
                forall|j: int| 0 <= j < i ==> #[trigger] out@[j]@ == self.results@[j].name@,
            decreases n - i,
        {
            out.push(self.results[i].name.clone());
            i = i + 1;
        }
        proof {
            assert(out.deep_view() =~= self.results@.map_values(|d: Dataset| d.name@));
        }
        out
    }

    /// Every record of every dataset, flattened in order.
    pub fn all_records(&self) -> (r: Vec<Record>)
        ensures
            crate::tally::recs_view(r@) == self.records_view(),
    {
        let nd = self.results.len();
        let mut out: Vec<Record> = Vec::new();
        let mut di: usize = 0;
        proof {
            assert(self.results@.take(0) =~= Seq::<Dataset>::empty());
            assert(crate::tally::recs_view(out@) =~= spec_datasets_records(
                self.results@.take(0),
            ));
        }
        while di < nd
            invariant
                nd == self.results@.len(),
                di <= nd,
                crate::tally::recs_view(out@) == spec_datasets_records(
                    self.results@.take(di as int),
                ),
            decreases nd - di,
        {
            let ds = &self.results[di];
            let ne = ds.entries.len();
            let mut ei: usize = 0;
            proof {
                assert(ds.entries_view().take(0) =~= Seq::<Seq<FieldV>>::empty());
                assert(crate::tally::recs_view(out@) =~= spec_datasets_records(
                    self.results@.take(di as int),
                ) + ds.entries_view().take(0));
            }
            while ei < ne
                invariant
                    nd == self.results@.len(),
                    di < nd,
                    ne == self.results@[di as int].entries@.len(),
                    ei <= ne,
                    crate::tally::recs_view(out@) == spec_datasets_records(
                        self.results@.take(di as int),
                    ) + self.results@[di as int].entries_view().take(ei as int),
                decreases ne - ei,
            {
                let rec = self.results[di].entries[ei].duplicate();
                let ghost pre_out = out@;
                out.push(rec);
                proof {
                    let ev = self.results@[di as int].entries_view();
                    assert(ev[ei as int] == self.results@[di as int].entries@[ei as int]@);
                    assert(ev.take(ei + 1) =~= ev.take(ei as int).push(ev[ei as int]));
                    assert(crate::tally::recs_view(out@) =~= crate::tally::recs_view(
                        pre_out,
                    ).push(rec@));
                    assert(crate::tally::recs_view(out@) =~= spec_datasets_records(
                        self.results@.take(di as int),
                    ) + ev.take(ei + 1));
                }
                ei = ei + 1;
            }
            proof {
                let ev = self.results@[di as int].entries_view();
                assert(ev.take(ne as int) =~= ev);
                assert(self.results@.take(di + 1) =~= self.results@.take(di as int).push(
                    self.results@[di as int],
                ));
                lemma_datasets_records_push(
                    self.results@.take(di as int),
                    self.results@[di as int],
                );
                assert(crate::tally::recs_view(out@) =~= spec_datasets_records(
                    self.results@.take(di + 1),
                ));
            }
            di = di + 1;
        }
        proof {
            assert(self.results@.take(nd as int) =~= self.results@);
        }
        out
    }

    /// Every field outside the summary skip list, flattened to one
    /// `name: value` line per field, record by record.
    pub fn other_fields(&self) -> (r: Vec<String>)
        ensures
            r.deep_view() == spec_field_lines(self.records_view()),
    {
        let recs = self.all_records();
        let ghost grecs = crate::tally::recs_view(recs@);
        let mut out: Vec<String> = Vec::new();
        let n = recs.len();
        let mut i: usize = 0;
        proof {
            assert(grecs.take(0) =~= Seq::<Seq<FieldV>>::empty());
            assert(out.deep_view() =~= spec_field_lines(grecs.take(0)));
        }
        while i < n
            invariant
                n == recs@.len(),
                i <= n,
                grecs == crate::tally::recs_view(recs@),
                out.deep_view() == spec_field_lines(grecs.take(i as int)),
            decreases n - i,
        {
            let rec = &recs[i];
            let nf = rec.fields.len();
            let mut fi: usize = 0;
            proof {
                assert(grecs[i as int] == recs@[i as int]@);
                assert(grecs[i as int].take(0) =~= Seq::<FieldV>::empty());
                assert(out.deep_view() =~= spec_field_lines(grecs.take(i as int))
                    + spec_rec_field_lines(grecs[i as int].take(0)));
            }
            while fi < nf
                invariant
                    n == recs@.len(),
                    i < n,
                    nf == rec.fields@.len(),
                    fi <= nf,
                    grecs == crate::tally::recs_view(recs@),
                    rec == &recs[i as int],
                    out.deep_view() == spec_field_lines(grecs.take(i as int))
                        + spec_rec_field_lines(grecs[i as int].take(fi as int)),
                decreases nf - fi,
            {
                let f = &rec.fields[fi];
                proof {
                    assert(grecs[i as int][fi as int] == rec.fields@[fi as int]@);
                    assert(grecs[i as int].take(fi + 1) =~= grecs[i as int].take(fi as int).push(
                        grecs[i as int][fi as int],
                    ));
                    lemma_rec_field_lines_push(
                        grecs[i as int].take(fi as int),
                        grecs[i as int][fi as int],
                    );
                }
                let skipped = crate::text::str_equal(&f.name, "username")
                    || crate::text::str_equal(&f.name, "email") || crate::text::str_equal(
                    &f.name,
                    "password",
                ) || crate::text::str_equal(&f.name, "name") || crate::text::str_equal(
                    &f.name,
                    "last_ip",
                ) || crate::text::str_equal(&f.name, "address") || crate::text::str_equal(
                    &f.name,
                    "zip",
                ) || crate::text::str_equal(&f.name, "company");
                if !skipped {
                    let ghost pre = out.deep_view();
                    let mut line = f.name.clone();
                    line.append(": ");
                    line.append(f.value.as_str());
                    out.push(line);
                    proof {
                        assert(out.deep_view() =~= pre.push(spec_field_line(
                            grecs[i as int][fi as int],
                        )));
                        assert(out.deep_view() =~= spec_field_lines(grecs.take(i as int))
                            + spec_rec_field_lines(grecs[i as int].take(fi + 1)));
                    }
                } else {
                    assert(out.deep_view() =~= spec_field_lines(grecs.take(i as int))
                        + spec_rec_field_lines(grecs[i as int].take(fi + 1)));
                }
                fi = fi + 1;
            }
            proof {
                assert(grecs[i as int].take(nf as int) =~= grecs[i as int]);
                assert(grecs.take(i + 1) =~= grecs.take(i as int).push(grecs[i as int]));
                lemma_field_lines_push(grecs.take(i as int), grecs[i as int]);
                assert(out.deep_view() =~= spec_field_lines(grecs.take(i + 1)));
            }
            i = i + 1;
        }
        proof {
            assert(grecs.take(n as int) =~= grecs);
        }
        out
    }

    /// Every value stored under the given field name, record by record.
    pub fn values_for_key(&self, key: &str) -> (r: Vec<String>)
        ensures
            r.deep_view() == spec_values_for_key(self.records_view(), key@),
    {
        let recs = self.all_records();
        let ghost grecs = crate::tally::recs_view(recs@);
        let mut out: Vec<String> = Vec::new();
        let n = recs.len();
        let mut i: usize = 0;
        proof {
            assert(grecs.take(0) =~= Seq::<Seq<FieldV>>::empty());
            assert(out.deep_view() =~= spec_values_for_key(grecs.take(0), key@));
        }
        while i < n
            invariant
                n == recs@.len(),
                i <= n,
                grecs == crate::tally::recs_view(recs@),
                out.deep_view() == spec_values_for_key(grecs.take(i as int), key@),
            decreases n - i,
        {
            proof {
                assert(grecs[i as int] == recs@[i as int]@);
                assert(grecs.take(i + 1) =~= grecs.take(i as int).push(grecs[i as int]));
                lemma_values_for_key_push(grecs.take(i as int), grecs[i as int], key@);
            }
            match recs[i].get(key) {
                Some(v) => {
                    out.push(v.clone());
                    assert(out.deep_view() =~= spec_values_for_key(grecs.take(i + 1), key@));
                },
                None => {
                    assert(out.deep_view() =~= spec_values_for_key(grecs.take(i + 1), key@));
                },
            }
            i = i + 1;
        }
        proof {
            assert(grecs.take(n as int) =~= grecs);
        }
        out
    }

    /// Every address found, record by record: the record's address, or its
    /// zip code where it carries no address.
    pub fn addresses(&self) -> (r: Vec<String>)
        ensures
            r.deep_view() == spec_addresses(self.records_view()),
    {
        let recs = self.all_records();
        let ghost grecs = crate::tally::recs_view(recs@);
        let mut out: Vec<String> = Vec::new();
        let n = recs.len();
        let mut i: usize = 0;
        proof {
            assert(grecs.take(0) =~= Seq::<Seq<FieldV>>::empty());
            assert(out.deep_view() =~= spec_addresses(grecs.take(0)));
        }
        while i < n
            invariant
                n == recs@.len(),
                i <= n,
                grecs == crate::tally::recs_view(recs@),
                out.deep_view() == spec_addresses(grecs.take(i as int)),
            decreases n - i,
        {
            proof {
                assert(grecs[i as int] == recs@[i as int]@);
                assert(grecs.take(i + 1) =~= grecs.take(i as int).push(grecs[i as int]));
                lemma_addresses_push(grecs.take(i as int), grecs[i as int]);
            }
            match recs[i].get("address") {
                Some(v) => {
                    out.push(v.clone());
                },
                None => {
                    match recs[i].get("zip") {
                        Some(v) => {
                            out.push(v.clone());
                        },
                        None => {},
                    }
                },
            }
            assert(out.deep_view() =~= spec_addresses(grecs.take(i + 1)));
            i = i + 1;
        }
        proof {
            assert(grecs.take(n as int) =~= grecs);
        }
        out
    }
}

/// The values stored under a field name, record by record.
pub open spec fn spec_values_for_key(recs: Seq<Seq<FieldV>>, key: Seq<char>) -> Seq<Seq<char>>
    decreases recs.len(),
{
    if recs.len() == 0 {
        Seq::empty()
    } else {
        let rest = spec_values_for_key(recs.drop_last(), key);
        match crate::records::spec_record_get(recs.last(), key) {
            Some(v) => rest.push(v),
            None => rest,
        }
    }
}

/// One more record contributes its value under the key, if it has one.
pub proof fn lemma_values_for_key_push(recs: Seq<Seq<FieldV>>, r: Seq<FieldV>, key: Seq<char>)
    ensures
        spec_values_for_key(recs.push(r), key) == (match crate::records::spec_record_get(r, key) {
            Some(v) => spec_values_for_key(recs, key).push(v),
            None => spec_values_for_key(recs, key),
        }),
{
    assert(recs.push(r).drop_last() =~= recs);
    assert(recs.push(r).last() == r);
}

/// The address of each record that has one, else its zip code, record by
/// record.
pub open spec fn spec_addresses(recs: Seq<Seq<FieldV>>) -> Seq<Seq<char>>
    decreases recs.len(),
{
    if recs.len() == 0 {
        Seq::empty()
    } else {
        let rest = spec_addresses(recs.drop_last());
        match crate::records::spec_record_get(recs.last(), "address"@) {
            Some(v) => rest.push(v),
            None => match crate::records::spec_record_get(recs.last(), "zip"@) {
                Some(v) => rest.push(v),
                None => rest,
            },
        }
    }
}

/// One more record contributes its address or zip code, if it has either.
pub proof fn lemma_addresses_push(recs: Seq<Seq<FieldV>>, r: Seq<FieldV>)
    ensures
        spec_addresses(recs.push(r)) == (match crate::records::spec_record_get(r, "address"@) {
            Some(v) => spec_addresses(recs).push(v),
            None => match crate::records::spec_record_get(r, "zip"@) {
                Some(v) => spec_addresses(recs).push(v),
                None => spec_addresses(recs),
            },
        }),
{
    assert(recs.push(r).drop_last() =~= recs);
    assert(recs.push(r).last() == r);
}

/// The field names the flat field-summary helper leaves out; older callers
/// read everything else as one `name: value` line per field.
pub open spec fn spec_summary_skipped(name: Seq<char>) -> bool {
    ||| name == "username"@
    ||| name == "email"@
    ||| name == "password"@
    ||| name == "name"@
    ||| name == "last_ip"@
    ||| name == "address"@
    ||| name == "zip"@
    ||| name == "company"@
}

/// The `name: value` line of one field.
pub open spec fn spec_field_line(f: FieldV) -> Seq<char> {
    f.name + ": "@ + f.value
}

/// The `name: value` lines of one record's fields outside the skip list.
pub open spec fn spec_rec_field_lines(rec: Seq<FieldV>) -> Seq<Seq<char>>
    decreases rec.len(),
{
    if rec.len() == 0 {
        Seq::empty()
    } else {
        let rest = spec_rec_field_lines(rec.drop_last());
        if spec_summary_skipped(rec.last().name) {
            rest
        } else {
            rest.push(spec_field_line(rec.last()))
        }
    }
}

/// The `name: value` lines of a whole bag of records.
pub open spec fn spec_field_lines(recs: Seq<Seq<FieldV>>) -> Seq<Seq<char>>
    decreases recs.len(),
{
    if recs.len() == 0 {
        Seq::empty()
    } else {
        spec_field_lines(recs.drop_last()) + spec_rec_field_lines(recs.last())
    }
}

/// One more record appends its lines.
pub proof fn lemma_field_lines_push(recs: Seq<Seq<FieldV>>, r: Seq<FieldV>)
    ensures
        spec_field_lines(recs.push(r)) == spec_field_lines(recs) + spec_rec_field_lines(r),
{
    assert(recs.push(r).drop_last() =~= recs);
    assert(recs.push(r).last() == r);
}

/// One more field appends its line, unless its name is skipped.
pub proof fn lemma_rec_field_lines_push(rec: Seq<FieldV>, f: FieldV)
    ensures
        spec_rec_field_lines(rec.push(f)) == if spec_summary_skipped(f.name) {
            spec_rec_field_lines(rec)
        } else {
            spec_rec_field_lines(rec).push(spec_field_line(f))
        },
{
    assert(rec.push(f).drop_last() =~= rec);
    assert(rec.push(f).last() == f);
}

/// A hash-lookup reply: named datasets of records.
#[derive(Debug)]
pub struct SnusbaseHashLookupResponse {
    pub took: u32,
    pub size: u32,
    pub results: Vec<Dataset>,
}

impl SnusbaseHashLookupResponse {
    /// The records of every dataset, flattened in order.
    pub open spec fn records_view(&self) -> Seq<Seq<FieldV>> {
        spec_datasets_records(self.results@)
    }

    /// Every record of every dataset, flattened in order.
    pub fn all_records(&self) -> (r: Vec<Record>)
        ensures
            crate::tally::recs_view(r@) == self.records_view(),
    {
        let shaped = SnusbaseDBResponse {
            took: self.took,
            size: self.size,
            results: duplicate_datasets(&self.results),
        };
        shaped.all_records()
    }
}

/// An exact copy of a dataset list.
fn duplicate_datasets(ds: &Vec<Dataset>) -> (r: Vec<Dataset>)
    ensures
        r@.len() == ds@.len(),
        spec_datasets_records(r@) == spec_datasets_records(ds@),
{
    let n = ds.len();
    let mut out: Vec<Dataset> = Vec::new();
    let mut i: usize = 0;
    proof {
        assert(ds@.take(0) =~= Seq::<Dataset>::empty());
        assert(spec_datasets_records(out@) =~= spec_datasets_records(ds@.take(0)));
    }
    while i < n
        invariant
            n == ds@.len(),
            i <= n,
            out@.len() == i,
            spec_datasets_records(out@) == spec_datasets_records(ds@.take(i as int)),
        decreases n - i,
    {
        let src = &ds[i];
        let ne = src.entries.len();
        let mut entries: Vec<Record> = Vec::new();
        let mut ei: usize = 0;
        while ei < ne
            invariant
                ne == src.entries@.len(),
                ei <= ne,
                entries@.len() == ei,
                forall|j: int| 0 <= j < ei ==> #[trigger] entries@[j]@ == src.entries@[j]@,
            decreases ne - ei,
        {
            entries.push(src.entries[ei].duplicate());
            ei = ei + 1;
        }
        let copy = Dataset { name: src.name.clone(), entries };
        proof {
            assert(copy.entries_view() =~= src.entries_view());
            assert(ds@.take(i + 1) =~= ds@.take(i as int).push(ds@[i as int]));
            assert(out@.push(copy).drop_last() =~= out@);
            lemma_datasets_records_push(ds@.take(i as int), ds@[i as int]);
            lemma_datasets_records_push(out@, copy);
        }
        out.push(copy);
        proof {
            assert(spec_datasets_records(out@) =~= spec_datasets_records(ds@.take(i + 1)));
        }
        i = i + 1;
    }
    proof {
        assert(ds@.take(n as int) =~= ds@);
    }
    out
}

/// One whois entry: the address queried and the fields found for it.
#[derive(Debug)]
pub struct GeoEntry {
    pub ip: String,
    pub content: Record,
}

/// A whois/geolocation reply: fields per address queried.
#[derive(Debug)]
pub struct SnusbaseIPResponse {
    pub took: i32,
    pub size: i32,
    pub results: Vec<GeoEntry>,
}

impl SnusbaseIPResponse {
    /// The fields found per address, in order.
    pub open spec fn contents_view(&self) -> Seq<Seq<FieldV>> {
        self.results@.map_values(|e: GeoEntry| e.content@)
    }

    /// The fields found per address, in order.
    pub fn contents(&self) -> (r: Vec<Record>)
        ensures
            crate::tally::recs_view(r@) == self.contents_view(),
    {
        let n = self.results.len();
        let mut out: Vec<Record> = Vec::new();
        let mut i: usize = 0;
        while i < n
            invariant
                n == self.results@.len(),
                i <= n,
                out@.len() == i,
                forall|j: int| 0 <= j < i ==> #[trigger] out@[j]@ == self.results@[j].content@,
            decreases n - i,
        {
            out.push(self.results[i].content.duplicate());
            i = i + 1;
        }
        proof {
            assert(crate::tally::recs_view(out@) =~= self.contents_view());
        }
        out
    }
}

/// One search request against the provider: the terms, the field types they
/// query, and whether wildcards apply.
#[derive(Debug)]
pub struct SnusbaseQueryRequest {
    pub terms: Vec<String>,
    pub types: Vec<String>,
    pub wildcard: bool,
}

/// The breach-data provider's client state: its upstream credential.
#[derive(Debug)]
pub struct Snusbase {
    pub api_key: String,
}

impl Snusbase {
    /// A client holding the given upstream credential.
    pub fn new(api_key: String) -> (s: Snusbase)
        ensures
            s.api_key@ == api_key@,
    {
        Snusbase { api_key }
    }

    /// The search request for one term against one field type, without
    /// wildcards.
    fn single_term_request(&self, term: String, field_type: &str) -> (r: SnusbaseQueryRequest)
        ensures
            r.terms.deep_view() =~= seq![term@],
            r.types.deep_view() =~= seq![field_type@],
            !r.wildcard,
    {
        let mut terms: Vec<String> = Vec::new();
        let ghost gterm = term@;
        terms.push(term);
        let mut types: Vec<String> = Vec::new();
        types.push(String::from_str(field_type));
        proof {
            assert(terms.deep_view() =~= seq![gterm]);
            assert(types.deep_view() =~= seq![field_type@]);
        }
        SnusbaseQueryRequest { terms, types, wildcard: false }
    }

    /// The record search for an email address.
    pub fn get_by_email(&self, email: String) -> (r: SnusbaseQueryRequest)
        ensures
            r.terms.deep_view() =~= seq![email@],
            r.types.deep_view() =~= seq!["email"@],
            !r.wildcard,
    {
        self.single_term_request(email, "email")
    }

    /// The record search for a username.
    pub fn get_by_username(&self, username: String) -> (r: SnusbaseQueryRequest)
        ensures
            r.terms.deep_view() =~= seq![username@],
            r.types.deep_view() =~= seq!["username"@],
            !r.wildcard,
    {
        self.single_term_request(username, "username")
    }

    /// The record search for a last-seen IP address.
    pub fn get_by_last_ip(&self, last_ip: String) -> (r: SnusbaseQueryRequest)
        ensures
            r.terms.deep_view() =~= seq![last_ip@],
            r.types.deep_view() =~= seq!["lastip"@],
            !r.wildcard,
    {
        self.single_term_request(last_ip, "lastip")
    }

    /// The record search for a password.
    pub fn get_by_password(&self, password: String) -> (r: SnusbaseQueryRequest)
        ensures
            r.terms.deep_view() =~= seq![password@],
            r.types.deep_view() =~= seq!["password"@],
            !r.wildcard,
    {
        self.single_term_request(password, "password")
    }

    /// The record search for a person's name.
    pub fn get_by_name(&self, name: String) -> (r: SnusbaseQueryRequest)
        ensures
            r.terms.deep_view() =~= seq![name@],
            r.types.deep_view() =~= seq!["name"@],
            !r.wildcard,
    {
        self.single_term_request(name, "name")
    }

    /// The record search for a hash.
    pub fn get_by_hash(&self, hash: String) -> (r: SnusbaseQueryRequest)
        ensures
            r.terms.deep_view() =~= seq![hash@],
            r.types.deep_view() =~= seq!["hash"@],
            !r.wildcard,
    {
        self.single_term_request(hash, "hash")
    }

    /// The hash lookup that rehashes a password.
    pub fn rehash(&self, password: String) -> (r: SnusbaseQueryRequest)
        ensures
            r.terms.deep_view() =~= seq![password@],
            r.types.deep_view() =~= seq!["password"@],
            !r.wildcard,
    {
        self.single_term_request(password, "password")
    }

    /// The hash lookup that dehashes a hash.
    pub fn dehash(&self, hash: String) -> (r: SnusbaseQueryRequest)
        ensures
            r.terms.deep_view() =~= seq![hash@],
            r.types.deep_view() =~= seq!["hash"@],
            !r.wildcard,
    {
        self.single_term_request(hash, "hash")
    }

    /// The whois query for a batch of addresses. Fails with
    /// `UpstreamError`, and only with it, exactly when the batch is empty.
    pub fn whois_ip_query(&self, ips: Vec<String>) -> (r: Result<Vec<String>, AppError>)
        ensures
            match r {
                Ok(terms) => ips@.len() > 0 && terms == ips,
                Err(e) => e == AppError::UpstreamError && ips@.len() == 0,
            },
    {
        if ips.len() == 0 {
            Err(AppError::UpstreamError)
        } else {
            Ok(ips)
        }
    }
}

} // verus!
