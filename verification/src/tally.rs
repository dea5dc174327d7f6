//! The tally normalizer: converts a provider's bag of records into one
//! canonical count-per-category summary, counting each distinct value at most
//! once per category, with field-name aliasing and a catch-all bucket for
//! unrecognized fields.

use vstd::prelude::*;
use vstd::seq_lib::seq_to_set_is_finite;
use vstd::string::StringExecFns;

use crate::records::{FieldV, Record};
use crate::types::PII;

verus! {

broadcast use {vstd::set::group_set_axioms, seq_to_set_is_finite};

/// A canonical category of the tally.
#[derive(Clone, Copy, PartialEq, Eq, Structural, Debug)]
pub enum Category {
    Usernames,
    Emails,
    Phones,
    Hashes,
    Salts,
    Ips,
    Names,
    Passwords,
    Addresses,
    Companies,
    Other,
}

/// The canonical count summary returned to the caller.
#[derive(Clone, Copy, PartialEq, Eq, Structural, Debug)]
pub struct Tally {
    pub usernames: usize,
    pub emails: usize,
    pub phones: usize,
    pub hashes: usize,
    pub salts: usize,
    pub ips: usize,
    pub names: usize,
    pub passwords: usize,
    pub addresses: usize,
    pub companies: usize,
    pub other: usize,
}

/// The mathematical image of a tally: one count per category.
pub struct TallyV {
    pub usernames: nat,
    pub emails: nat,
    pub phones: nat,
    pub hashes: nat,
    pub salts: nat,
    pub ips: nat,
    pub names: nat,
    pub passwords: nat,
    pub addresses: nat,
    pub companies: nat,
    pub other: nat,
}

impl View for Tally {
    type V = TallyV;

    open spec fn view(&self) -> TallyV {
        TallyV {
            usernames: self.usernames as nat,
            emails: self.emails as nat,
            phones: self.phones as nat,
            hashes: self.hashes as nat,
            salts: self.salts as nat,
            ips: self.ips as nat,
            names: self.names as nat,
            passwords: self.passwords as nat,
            addresses: self.addresses as nat,
            companies: self.companies as nat,
            other: self.other as nat,
        }
    }
}

impl Tally {
    /// A tally of all zero counts.
    pub fn empty() -> (t: Tally)
        ensures
            t@ == spec_empty_tally(),
    {
        Tally {
            usernames: 0,
            emails: 0,
            phones: 0,
            hashes: 0,
            salts: 0,
            ips: 0,
            names: 0,
            passwords: 0,
            addresses: 0,
            companies: 0,
            other: 0,
        }
    }
}

/// The all-zero tally.
pub open spec fn spec_empty_tally() -> TallyV {
    TallyV {
        usernames: 0,
        emails: 0,
        phones: 0,
        hashes: 0,
        salts: 0,
        ips: 0,
        names: 0,
        passwords: 0,
        addresses: 0,
        companies: 0,
        other: 0,
    }
}

/// The field names that feed a category, for every category but `Other`.
pub open spec fn spec_aliases(c: Category) -> Seq<Seq<char>> {
    match c {
        Category::Usernames => seq!["username"@],
        Category::Emails => seq!["email"@],
        Category::Phones => seq!["phone"@],
        Category::Hashes => seq!["hash"@],
        Category::Salts => seq!["salt"@],
        Category::Ips => seq!["last_ip"@, "lastip"@, "ip"@],
        Category::Names => seq!["name"@],
        Category::Passwords => seq!["password"@],
        Category::Addresses => seq!["address"@, "zip"@],
        Category::Companies => seq!["company"@],
        Category::Other => seq![],
    }
}

/// The category a field name feeds, or `None` for an unrecognized name,
/// which feeds the `other` bucket.
pub open spec fn spec_field_category(name: Seq<char>) -> Option<Category> {
    if name == "username"@ {
        Some(Category::Usernames)
    } else if name == "email"@ {
        Some(Category::Emails)
    } else if name == "phone"@ {
        Some(Category::Phones)
    } else if name == "hash"@ {
        Some(Category::Hashes)
    } else if name == "salt"@ {
        Some(Category::Salts)
    } else if name == "last_ip"@ || name == "lastip"@ || name == "ip"@ {
        Some(Category::Ips)
    } else if name == "name"@ {
        Some(Category::Names)
    } else if name == "password"@ {
        Some(Category::Passwords)
    } else if name == "address"@ || name == "zip"@ {
        Some(Category::Addresses)
    } else if name == "company"@ {
        Some(Category::Companies)
    } else {
        None
    }
}

/// The set holding an optional lookup result.
pub open spec fn spec_opt_set(o: Option<Seq<char>>) -> Set<Seq<char>> {
    match o {
        Some(v) => set![v],
        None => Set::empty(),
    }
}

/// The values one record stores under any of the given field names.
pub open spec fn spec_lookup_values(rec: Seq<FieldV>, keys: Seq<Seq<char>>) -> Set<Seq<char>>
    decreases keys.len(),
{
    if keys.len() == 0 {
        Set::empty()
    } else {
        spec_opt_set(crate::records::spec_record_get(rec, keys[0])).union(
            spec_lookup_values(rec, keys.drop_first()),
        )
    }
}

/// The values a whole bag of records stores under any of the given field
/// names.
pub open spec fn spec_keyed_values(recs: Seq<Seq<FieldV>>, keys: Seq<Seq<char>>) -> Set<Seq<char>>
    decreases recs.len(),
{
    if recs.len() == 0 {
        Set::empty()
    } else {
        spec_lookup_values(recs[0], keys).union(spec_keyed_values(recs.drop_first(), keys))
    }
}

/// The values one record stores under unrecognized field names.
pub open spec fn spec_rec_other_values(rec: Seq<FieldV>) -> Set<Seq<char>>
    decreases rec.len(),
{
    if rec.len() == 0 {
        Set::empty()
    } else {
        let first = if spec_field_category(rec[0].name) is None {
            set![rec[0].value]
        } else {
            Set::<Seq<char>>::empty()
        };
        first.union(spec_rec_other_values(rec.drop_first()))
    }
}

/// The values a whole bag of records stores under unrecognized field names,
/// deduplicated by value across all unrecognized fields combined.
pub open spec fn spec_other_values(recs: Seq<Seq<FieldV>>) -> Set<Seq<char>>
    decreases recs.len(),
{
    if recs.len() == 0 {
        Set::empty()
    } else {
        spec_rec_other_values(recs[0]).union(spec_other_values(recs.drop_first()))
    }
}

/// The views of a vector of records.
pub open spec fn recs_view(recs: Seq<Record>) -> Seq<Seq<FieldV>> {
    recs.map_values(|r: Record| r@)
}

/// A deduplication set: the distinct values already counted, in insertion
/// order.
pub struct DedupSet {
    pub items: Vec<String>,
}

impl DedupSet {
    /// The set of values held.
    pub open spec fn view(&self) -> Set<Seq<char>> {
        self.items.deep_view().to_set()
    }

    /// The vector holds each value once.
    pub open spec fn wf(&self) -> bool {
        self.items.deep_view().no_duplicates()
    }

    /// How many distinct values are held.
    pub open spec fn spec_len(&self) -> nat {
        self.items@.len()
    }

    /// A well-formed dedup set holds exactly as many items as its set of
    /// values has elements.
    pub proof fn lemma_len(&self)
        requires
            self.wf(),
        ensures
            self@.len() == self.spec_len(),
            self@.finite(),
    {
        self.items.deep_view().unique_seq_to_set();
    }

    pub fn new() -> (s: DedupSet)
        ensures
            s.wf(),
            s@ == Set::<Seq<char>>::empty(),
            s.spec_len() == 0,
    {
        let s = DedupSet { items: Vec::new() };
        proof {
            assert(s.items.deep_view() =~= Seq::<Seq<char>>::empty());
            assert(s@ =~= Set::<Seq<char>>::empty());
        }
        s
    }

    /// Whether the value was already counted.
    pub fn contains(&self, v: &String) -> (r: bool)
        ensures
            r == self@.contains(v@),
    {
        let n = self.items.len();
        let mut i: usize = 0;
        while i < n
            invariant
                n == self.items.len(),
                i <= n,
                forall|j: int| 0 <= j < i ==> self.items.deep_view()[j] != v@,
            decreases n - i,
        {
            assert(self.items.deep_view()[i as int] == self.items@[i as int]@);
            if crate::text::str_equal(&self.items[i], v.as_str()) {
                assert(self.items.deep_view().contains(v@));
                return true;
            }
            i = i + 1;
        }
        assert(!self.items.deep_view().contains(v@));
        false
    }

    /// Count a value: add it unless it was already counted, and report
    /// whether it was new.
    pub fn try_insert(&mut self, v: &String) -> (added: bool)
        requires
            old(self).wf(),
        ensures
            final (self).wf(),
            added == !old(self)@.contains(v@),
            final (self)@ == old(self)@.insert(v@),
            final (self).spec_len() == old(self).spec_len() + (if added {
                1int
            } else {
                0int
            }),
            final (self).spec_len() <= usize::MAX,
    {
        if self.contains(v) {
            proof {
                assert(old(self)@.contains(v@));
                assert(old(self)@.insert(v@) =~= old(self)@);
                assert(self.items@.len() == vstd::std_specs::vec::spec_vec_len(&self.items));
            }
            false
        } else {
            let copy = v.clone();
            self.items.push(copy);
            proof {
                assert(self.items@.len() == vstd::std_specs::vec::spec_vec_len(&self.items));
                let dv_old = old(self).items.deep_view();
                let dv_new = self.items.deep_view();
                assert(dv_new =~= dv_old.push(v@));
                assert(!dv_old.contains(v@));
                assert forall|a: Seq<char>| dv_new.contains(a) implies dv_old.contains(a) || a
                    == v@ by {
                    let j = choose|j: int| 0 <= j < dv_new.len() && dv_new[j] == a;
                    if j < dv_old.len() {
                        assert(dv_old[j] == a);
                    }
                }
                assert forall|a: Seq<char>| dv_old.contains(a) implies dv_new.contains(a) by {
                    let j = choose|j: int| 0 <= j < dv_old.len() && dv_old[j] == a;
                    assert(dv_new[j] == a);
                }
                assert(dv_new[dv_old.len() as int] == v@);
                assert(dv_new.contains(v@));
                assert(self@ =~= old(self)@.insert(v@));
                assert forall|i: int, j: int|
                    0 <= i < dv_new.len() && 0 <= j < dv_new.len() && i != j implies dv_new[i]
                    != dv_new[j] by {
                    if i < dv_old.len() && j < dv_old.len() {
                        assert(dv_old[i] == dv_new[i] && dv_old[j] == dv_new[j]);
                    } else if i < dv_old.len() {
                        assert(dv_old.contains(dv_old[i]));
                    } else if j < dv_old.len() {
                        assert(dv_old.contains(dv_old[j]));
                    }
                }
            }
            true
        }
    }
}

/// Looking one more field name up adds exactly that lookup's value.
pub proof fn lemma_lookup_values_push(rec: Seq<FieldV>, keys: Seq<Seq<char>>, k: Seq<char>)
    ensures
        spec_lookup_values(rec, keys.push(k)) == spec_lookup_values(rec, keys).union(
            spec_opt_set(crate::records::spec_record_get(rec, k)),
        ),
    decreases keys.len(),
{
    let target = spec_lookup_values(rec, keys).union(
        spec_opt_set(crate::records::spec_record_get(rec, k)),
    );
    if keys.len() == 0 {
        assert(keys.push(k)[0] == k);
        assert(keys.push(k).drop_first() =~= Seq::<Seq<char>>::empty());
        assert(spec_lookup_values(rec, Seq::<Seq<char>>::empty()) =~= Set::<Seq<char>>::empty());
        assert(spec_lookup_values(rec, keys) =~= Set::<Seq<char>>::empty());
        assert(spec_lookup_values(rec, keys.push(k)) =~= target);
    } else {
        assert(keys.push(k)[0] == keys[0]);
        assert(keys.push(k).drop_first() =~= keys.drop_first().push(k));
        lemma_lookup_values_push(rec, keys.drop_first(), k);
        assert(spec_lookup_values(rec, keys.push(k)) =~= target);
    }
}

/// Adding one more record adds exactly that record's values.
pub proof fn lemma_keyed_values_push(recs: Seq<Seq<FieldV>>, keys: Seq<Seq<char>>, r: Seq<FieldV>)
    ensures
        spec_keyed_values(recs.push(r), keys) == spec_keyed_values(recs, keys).union(
            spec_lookup_values(r, keys),
        ),
    decreases recs.len(),
{
    let target = spec_keyed_values(recs, keys).union(spec_lookup_values(r, keys));
    if recs.len() == 0 {
        assert(recs.push(r)[0] == r);
        assert(recs.push(r).drop_first() =~= Seq::<Seq<FieldV>>::empty());
        assert(spec_keyed_values(Seq::<Seq<FieldV>>::empty(), keys) =~= Set::<Seq<char>>::empty());
        assert(spec_keyed_values(recs, keys) =~= Set::<Seq<char>>::empty());
        assert(spec_keyed_values(recs.push(r), keys) =~= target);
    } else {
        assert(recs.push(r)[0] == recs[0]);
        assert(recs.push(r).drop_first() =~= recs.drop_first().push(r));
        lemma_keyed_values_push(recs.drop_first(), keys, r);
        assert(spec_keyed_values(recs.push(r), keys) =~= target);
    }
}

/// Reading one more field feeds the `other` bucket exactly when its name is
/// unrecognized.
pub proof fn lemma_rec_other_values_push(rec: Seq<FieldV>, f: FieldV)
    ensures
        spec_rec_other_values(rec.push(f)) == spec_rec_other_values(rec).union(
            if spec_field_category(f.name) is None {
                set![f.value]
            } else {
                Set::<Seq<char>>::empty()
            },
        ),
    decreases rec.len(),
{
    let add = if spec_field_category(f.name) is None {
        set![f.value]
    } else {
        Set::<Seq<char>>::empty()
    };
    let target = spec_rec_other_values(rec).union(add);
    if rec.len() == 0 {
        assert(rec.push(f)[0] == f);
        assert(rec.push(f).drop_first() =~= Seq::<FieldV>::empty());
        assert(spec_rec_other_values(Seq::<FieldV>::empty()) =~= Set::<Seq<char>>::empty());
        assert(spec_rec_other_values(rec) =~= Set::<Seq<char>>::empty());
        assert(spec_rec_other_values(rec.push(f)) =~= target);
    } else {
        assert(rec.push(f)[0] == rec[0]);
        assert(rec.push(f).drop_first() =~= rec.drop_first().push(f));
        lemma_rec_other_values_push(rec.drop_first(), f);
        assert(spec_rec_other_values(rec.push(f)) =~= target);
    }
}

/// Adding one more record adds exactly that record's unrecognized values.
pub proof fn lemma_other_values_push(recs: Seq<Seq<FieldV>>, r: Seq<FieldV>)
    ensures
        spec_other_values(recs.push(r)) == spec_other_values(recs).union(
            spec_rec_other_values(r),
        ),
    decreases recs.len(),
{
    let target = spec_other_values(recs).union(spec_rec_other_values(r));
    if recs.len() == 0 {
        assert(recs.push(r)[0] == r);
        assert(recs.push(r).drop_first() =~= Seq::<Seq<FieldV>>::empty());
        assert(spec_other_values(Seq::<Seq<FieldV>>::empty()) =~= Set::<Seq<char>>::empty());
        assert(spec_other_values(recs) =~= Set::<Seq<char>>::empty());
        assert(spec_other_values(recs.push(r)) =~= target);
    } else {
        assert(recs.push(r)[0] == recs[0]);
        assert(recs.push(r).drop_first() =~= recs.drop_first().push(r));
        lemma_other_values_push(recs.drop_first(), r);
        assert(spec_other_values(recs.push(r)) =~= target);
    }
}

/// The seed handed to one counting pass: the value the caller queried, if it
/// feeds the counted category.
pub open spec fn spec_seed_set(seed: Option<&String>) -> Set<Seq<char>> {
    match seed {
        Some(s) => set![s@],
        None => Set::<Seq<char>>::empty(),
    }
}

/// Count the distinct values the records store under the given field names,
/// not counting the seeded value.
#[verifier::loop_isolation(false)]
pub fn count_values(recs: &Vec<Record>, keys: &Vec<String>, seed: Option<&String>) -> (n: usize)
    ensures
        n == spec_keyed_values(recs_view(recs@), keys.deep_view()).difference(
            spec_seed_set(seed),
        ).len(),
{
    let ghost gk = keys.deep_view();
    let ghost grecs = recs_view(recs@);
    let mut seen = DedupSet::new();
    let mut seed_len: usize = 0;
    match seed {
        Some(sv) => {
            seen.try_insert(sv);
            seed_len = 1;
        },
        None => {},
    }
    assert(seen@ =~= spec_seed_set(seed));
    let mut count: usize = 0;
    let nr = recs.len();
    let mut ri: usize = 0;
    proof {
        assert(grecs.take(0) =~= Seq::<Seq<FieldV>>::empty());
        assert(seen@ =~= spec_seed_set(seed).union(spec_keyed_values(grecs.take(0), gk)));
    }
    while ri < nr
        invariant
            ri <= nr,
            seen.wf(),
            seen@ == spec_seed_set(seed).union(spec_keyed_values(grecs.take(ri as int), gk)),
            count + seed_len == seen.spec_len(),
        decreases nr - ri,
    {
        let rec = &recs[ri];
        let nk = keys.len();
        let mut ki: usize = 0;
        proof {
            assert(gk.take(0) =~= Seq::<Seq<char>>::empty());
            assert(seen@ =~= spec_seed_set(seed).union(
                spec_keyed_values(grecs.take(ri as int), gk),
            ).union(spec_lookup_values(grecs[ri as int], gk.take(0))));
        }
        while ki < nk
            invariant
                ki <= nk,
                ri < nr,
                seen.wf(),
                seen@ == spec_seed_set(seed).union(
                    spec_keyed_values(grecs.take(ri as int), gk),
                ).union(spec_lookup_values(grecs[ri as int], gk.take(ki as int))),
                count + seed_len == seen.spec_len(),
            decreases nk - ki,
        {
            let ghost seen_before = seen@;
            match rec.get(keys[ki].as_str()) {
                Some(v) => {
                    let added = seen.try_insert(v);
                    if added {
                        count = count + 1;
                    }
                },
                None => {},
            }
            proof {
                assert(gk.take(ki + 1) =~= gk.take(ki as int).push(gk[ki as int]));
                lemma_lookup_values_push(grecs[ri as int], gk.take(ki as int), gk[ki as int]);
                assert(gk[ki as int] == keys@[ki as int]@);
                assert(grecs[ri as int] == recs@[ri as int]@);
                assert(seen@ =~= spec_seed_set(seed).union(
                    spec_keyed_values(grecs.take(ri as int), gk),
                ).union(spec_lookup_values(grecs[ri as int], gk.take(ki + 1))));
            }
            ki = ki + 1;
        }
        proof {
            assert(gk.take(nk as int) =~= gk);
            assert(grecs.take(ri + 1) =~= grecs.take(ri as int).push(grecs[ri as int]));
            lemma_keyed_values_push(grecs.take(ri as int), gk, grecs[ri as int]);
            assert(seen@ =~= spec_seed_set(seed).union(spec_keyed_values(grecs.take(ri + 1), gk)));
        }
        ri = ri + 1;
    }
    proof {
        assert(grecs.take(nr as int) =~= grecs);
        seen.lemma_len();
        let s = spec_seed_set(seed);
        let v = spec_keyed_values(grecs, gk);
        match seed {
            None => {
                assert(s =~= Set::<Seq<char>>::empty());
                assert(seen@ =~= v);
                assert(v.difference(s) =~= v);
            },
            Some(sv) => {
                let d = v.difference(s);
                assert(seen@.contains(sv@));
                assert(d =~= seen@.difference(s));
                assert(d.finite());
                assert(!d.contains(sv@));
                assert(seen@ =~= d.insert(sv@));
                assert(seen@.len() == d.len() + 1);
                assert(s.len() == 1) by {
                    assert(s =~= Set::<Seq<char>>::empty().insert(sv@));
                }
            },
        }
    }
    count
}

/// Count the distinct values the records store under unrecognized field
/// names, across all such fields combined.
#[verifier::loop_isolation(false)]
pub fn count_other(recs: &Vec<Record>) -> (n: usize)
    ensures
        n == spec_other_values(recs_view(recs@)).len(),
{
    let ghost grecs = recs_view(recs@);
    let mut seen = DedupSet::new();
    let mut count: usize = 0;
    let nr = recs.len();
    let mut ri: usize = 0;
    proof {
        assert(grecs.take(0) =~= Seq::<Seq<FieldV>>::empty());
        assert(seen@ =~= spec_other_values(grecs.take(0)));
    }
    while ri < nr
        invariant
            ri <= nr,
            seen.wf(),
            seen@ == spec_other_values(grecs.take(ri as int)),
            count == seen.spec_len(),
        decreases nr - ri,
    {
        let rec = &recs[ri];
        let nf = rec.fields.len();
        let mut fi: usize = 0;
        proof {
            assert(grecs[ri as int].take(0) =~= Seq::<FieldV>::empty());
            assert(seen@ =~= spec_other_values(grecs.take(ri as int)).union(
                spec_rec_other_values(grecs[ri as int].take(0)),
            ));
        }
        while fi < nf
            invariant
                fi <= nf,
                ri < nr,
                nf == rec.fields.len(),
                seen.wf(),
                seen@ == spec_other_values(grecs.take(ri as int)).union(
                    spec_rec_other_values(grecs[ri as int].take(fi as int)),
                ),
                count == seen.spec_len(),
            decreases nf - fi,
        {
            let f = &rec.fields[fi];
            proof {
                assert(grecs[ri as int][fi as int] == rec.fields@[fi as int]@);
            }
            if category_of_field(&f.name).is_none() {
                let added = seen.try_insert(&f.value);
                if added {
                    count = count + 1;
                }
            }
            proof {
                assert(grecs[ri as int].take(fi + 1) =~= grecs[ri as int].take(fi as int).push(
                    grecs[ri as int][fi as int],
                ));
                lemma_rec_other_values_push(
                    grecs[ri as int].take(fi as int),
                    grecs[ri as int][fi as int],
                );
                assert(seen@ =~= spec_other_values(grecs.take(ri as int)).union(
                    spec_rec_other_values(grecs[ri as int].take(fi + 1)),
                ));
            }
            fi = fi + 1;
        }
        proof {
            assert(grecs[ri as int].take(nf as int) =~= grecs[ri as int]);
            assert(grecs.take(ri + 1) =~= grecs.take(ri as int).push(grecs[ri as int]));
            lemma_other_values_push(grecs.take(ri as int), grecs[ri as int]);
            assert(seen@ =~= spec_other_values(grecs.take(ri + 1)));
        }
        ri = ri + 1;
    }
    proof {
        assert(grecs.take(nr as int) =~= grecs);
        seen.lemma_len();
    }
    count
}

/// The category a field name feeds, or `None` for the `other` bucket.
pub fn category_of_field(name: &String) -> (r: Option<Category>)
    ensures
        r == spec_field_category(name@),
{
    if crate::text::str_equal(name, "username") {
        Some(Category::Usernames)
    } else if crate::text::str_equal(name, "email") {
        Some(Category::Emails)
    } else if crate::text::str_equal(name, "phone") {
        Some(Category::Phones)
    } else if crate::text::str_equal(name, "hash") {
        Some(Category::Hashes)
    } else if crate::text::str_equal(name, "salt") {
        Some(Category::Salts)
    } else if crate::text::str_equal(name, "last_ip") || crate::text::str_equal(name, "lastip")
        || crate::text::str_equal(name, "ip") {
        Some(Category::Ips)
    } else if crate::text::str_equal(name, "name") {
        Some(Category::Names)
    } else if crate::text::str_equal(name, "password") {
        Some(Category::Passwords)
    } else if crate::text::str_equal(name, "address") || crate::text::str_equal(name, "zip") {
        Some(Category::Addresses)
    } else if crate::text::str_equal(name, "company") {
        Some(Category::Companies)
    } else {
        None
    }
}

/// The alias field names that feed a category.
pub fn alias_keys(c: Category) -> (r: Vec<String>)
    ensures
        r.deep_view() == spec_aliases(c),
{
    let mut v: Vec<String> = Vec::new();
    match c {
        Category::Usernames => {
            v.push(String::from_str("username"));
        },
        Category::Emails => {
            v.push(String::from_str("email"));
        },
        Category::Phones => {
            v.push(String::from_str("phone"));
        },
        Category::Hashes => {
            v.push(String::from_str("hash"));
        },
        Category::Salts => {
            v.push(String::from_str("salt"));
        },
        Category::Ips => {
            v.push(String::from_str("last_ip"));
            v.push(String::from_str("lastip"));
            v.push(String::from_str("ip"));
        },
        Category::Names => {
            v.push(String::from_str("name"));
        },
        Category::Passwords => {
            v.push(String::from_str("password"));
        },
        Category::Addresses => {
            v.push(String::from_str("address"));
            v.push(String::from_str("zip"));
        },
        Category::Companies => {
            v.push(String::from_str("company"));
        },
        Category::Other => {},
    }
    assert(v.deep_view() =~= spec_aliases(c));
    v
}

/// The category a queried value pre-seeds, by the kind of the value.
pub open spec fn spec_seed_category(pii: PII) -> Category {
    match pii {
        PII::Email => Category::Emails,
        PII::Phone => Category::Phones,
        PII::Username => Category::Usernames,
        PII::Hash => Category::Hashes,
        PII::Ip => Category::Ips,
        PII::Name => Category::Names,
        PII::Password => Category::Passwords,
    }
}

/// The category a queried value pre-seeds.
pub fn seed_category(pii: PII) -> (c: Category)
    ensures
        c == spec_seed_category(pii),
{
    match pii {
        PII::Email => Category::Emails,
        PII::Phone => Category::Phones,
        PII::Username => Category::Usernames,
        PII::Hash => Category::Hashes,
        PII::Ip => Category::Ips,
        PII::Name => Category::Names,
        PII::Password => Category::Passwords,
    }
}

/// The values already counted before any record is read: the queried value,
/// in the category its kind feeds.
pub open spec fn spec_category_seed(seedc: Category, seedv: Seq<char>, c: Category) -> Set<
    Seq<char>,
> {
    if c == seedc {
        set![seedv]
    } else {
        Set::<Seq<char>>::empty()
    }
}

/// The distinct values a bag of records feeds into one category.
pub open spec fn spec_category_values(recs: Seq<Seq<FieldV>>, c: Category) -> Set<Seq<char>> {
    if c is Other {
        spec_other_values(recs)
    } else {
        spec_keyed_values(recs, spec_aliases(c))
    }
}

/// One category's count: its distinct values, less the seeded one.
pub open spec fn spec_category_count(
    recs: Seq<Seq<FieldV>>,
    c: Category,
    seedc: Category,
    seedv: Seq<char>,
) -> nat {
    spec_category_values(recs, c).difference(spec_category_seed(seedc, seedv, c)).len()
}

/// The canonical summary of a bag of records, seeded with one queried value.
pub open spec fn spec_tally(recs: Seq<Seq<FieldV>>, seedc: Category, seedv: Seq<char>) -> TallyV {
    TallyV {
        usernames: spec_category_count(recs, Category::Usernames, seedc, seedv),
        emails: spec_category_count(recs, Category::Emails, seedc, seedv),
        phones: spec_category_count(recs, Category::Phones, seedc, seedv),
        hashes: spec_category_count(recs, Category::Hashes, seedc, seedv),
        salts: spec_category_count(recs, Category::Salts, seedc, seedv),
        ips: spec_category_count(recs, Category::Ips, seedc, seedv),
        names: spec_category_count(recs, Category::Names, seedc, seedv),
        passwords: spec_category_count(recs, Category::Passwords, seedc, seedv),
        addresses: spec_category_count(recs, Category::Addresses, seedc, seedv),
        companies: spec_category_count(recs, Category::Companies, seedc, seedv),
        other: spec_category_count(recs, Category::Other, seedc, seedv),
    }
}

/// Count one recognized category, seeding it with the queried value when its
/// kind feeds that category.
fn count_category(recs: &Vec<Record>, c: Category, seed_cat: Category, value: &String) -> (n:
    usize)
    requires
        c != Category::Other,
    ensures
        n == spec_category_count(recs_view(recs@), c, seed_cat, value@),
{
    let keys = alias_keys(c);
    let seed: Option<&String> = if c == seed_cat {
        Some(value)
    } else {
        None
    };
    let n = count_values(recs, &keys, seed);
    proof {
        assert(spec_seed_set(seed) =~= spec_category_seed(seed_cat, value@, c));
    }
    n
}

/// Normalize a bag of records into the canonical per-category counts: each
/// distinct value is counted once in its category, field-name aliases share
/// one category, unrecognized fields feed the `other` bucket deduplicated by
/// value, and the queried value itself is never counted in the category its
/// kind feeds.
pub fn summarize(recs: &Vec<Record>, pii: PII, value: &String) -> (t: Tally)
    ensures
        t@ == spec_tally(recs_view(recs@), spec_seed_category(pii), value@),
{
    let seed_cat = seed_category(pii);
    let other = count_other(recs);
    proof {
        assert(spec_seed_category(pii) != Category::Other);
        assert(spec_category_seed(seed_cat, value@, Category::Other) =~= Set::<Seq<char>>::empty());
        assert(spec_other_values(recs_view(recs@)).difference(Set::<Seq<char>>::empty())
            =~= spec_other_values(recs_view(recs@)));
    }
    Tally {
        usernames: count_category(recs, Category::Usernames, seed_cat, value),
        emails: count_category(recs, Category::Emails, seed_cat, value),
        phones: count_category(recs, Category::Phones, seed_cat, value),
        hashes: count_category(recs, Category::Hashes, seed_cat, value),
        salts: count_category(recs, Category::Salts, seed_cat, value),
        ips: count_category(recs, Category::Ips, seed_cat, value),
        names: count_category(recs, Category::Names, seed_cat, value),
        passwords: count_category(recs, Category::Passwords, seed_cat, value),
        addresses: count_category(recs, Category::Addresses, seed_cat, value),
        companies: count_category(recs, Category::Companies, seed_cat, value),
        other,
    }
}

/// The summary of a rehash lookup: only hashes and salts are read.
pub open spec fn spec_rehash_tally(recs: Seq<Seq<FieldV>>) -> TallyV {
    TallyV {
        hashes: spec_keyed_values(recs, spec_aliases(Category::Hashes)).len(),
        salts: spec_keyed_values(recs, spec_aliases(Category::Salts)).len(),
        usernames: 0,
        emails: 0,
        phones: 0,
        ips: 0,
        names: 0,
        passwords: 0,
        addresses: 0,
        companies: 0,
        other: 0,
    }
}

/// Summarize a rehash lookup: count the distinct hashes and salts.
pub fn rehash_tally(recs: &Vec<Record>) -> (t: Tally)
    ensures
        t@ == spec_rehash_tally(recs_view(recs@)),
{
    let hashes = count_values(recs, &alias_keys(Category::Hashes), None);
    let salts = count_values(recs, &alias_keys(Category::Salts), None);
    proof {
        let hv = spec_keyed_values(recs_view(recs@), spec_aliases(Category::Hashes));
        let sv = spec_keyed_values(recs_view(recs@), spec_aliases(Category::Salts));
        assert(hv.difference(Set::<Seq<char>>::empty()) =~= hv);
        assert(sv.difference(Set::<Seq<char>>::empty()) =~= sv);
    }
    Tally {
        hashes,
        salts,
        usernames: 0,
        emails: 0,
        phones: 0,
        ips: 0,
        names: 0,
        passwords: 0,
        addresses: 0,
        companies: 0,
        other: 0,
    }
}

/// The summary of a dehash lookup: only passwords are read.
pub open spec fn spec_dehash_tally(recs: Seq<Seq<FieldV>>) -> TallyV {
    TallyV {
        passwords: spec_keyed_values(recs, spec_aliases(Category::Passwords)).len(),
        usernames: 0,
        emails: 0,
        phones: 0,
        hashes: 0,
        salts: 0,
        ips: 0,
        names: 0,
        addresses: 0,
        companies: 0,
        other: 0,
    }
}

/// Summarize a dehash lookup: count the distinct recovered passwords.
pub fn dehash_tally(recs: &Vec<Record>) -> (t: Tally)
    ensures
        t@ == spec_dehash_tally(recs_view(recs@)),
{
    let passwords = count_values(recs, &alias_keys(Category::Passwords), None);
    proof {
        let pv = spec_keyed_values(recs_view(recs@), spec_aliases(Category::Passwords));
        assert(pv.difference(Set::<Seq<char>>::empty()) =~= pv);
    }
    Tally {
        passwords,
        usernames: 0,
        emails: 0,
        phones: 0,
        hashes: 0,
        salts: 0,
        ips: 0,
        names: 0,
        addresses: 0,
        companies: 0,
        other: 0,
    }
}

/// Whether a whois entry names a company or an organisation.
pub open spec fn spec_geo_has_company(rec: Seq<FieldV>) -> bool {
    crate::records::spec_record_get(rec, "company"@) is Some || crate::records::spec_record_get(
        rec,
        "org"@,
    ) is Some
}

/// Whether a whois entry carries coordinates.
pub open spec fn spec_geo_has_coords(rec: Seq<FieldV>) -> bool {
    crate::records::spec_record_get(rec, "lat"@) is Some && crate::records::spec_record_get(
        rec,
        "lon"@,
    ) is Some
}

/// How many whois entries name a company or an organisation.
pub open spec fn spec_geo_companies(recs: Seq<Seq<FieldV>>) -> nat
    decreases recs.len(),
{
    if recs.len() == 0 {
        0
    } else {
        (if spec_geo_has_company(recs[0]) {
            1nat
        } else {
            0nat
        }) + spec_geo_companies(recs.drop_first())
    }
}

/// How many whois entries carry coordinates.
pub open spec fn spec_geo_addresses(recs: Seq<Seq<FieldV>>) -> nat
    decreases recs.len(),
{
    if recs.len() == 0 {
        0
    } else {
        (if spec_geo_has_coords(recs[0]) {
            1nat
        } else {
            0nat
        }) + spec_geo_addresses(recs.drop_first())
    }
}

/// One more whois entry raises each geo count by at most one.
pub proof fn lemma_geo_counts_push(recs: Seq<Seq<FieldV>>, r: Seq<FieldV>)
    ensures
        spec_geo_companies(recs.push(r)) == spec_geo_companies(recs) + (if spec_geo_has_company(r) {
            1nat
        } else {
            0nat
        }),
        spec_geo_addresses(recs.push(r)) == spec_geo_addresses(recs) + (if spec_geo_has_coords(r) {
            1nat
        } else {
            0nat
        }),
    decreases recs.len(),
{
    if recs.len() == 0 {
        assert(recs.push(r)[0] == r);
        assert(recs.push(r).drop_first() =~= Seq::<Seq<FieldV>>::empty());
        assert(spec_geo_companies(Seq::<Seq<FieldV>>::empty()) == 0);
        assert(spec_geo_addresses(Seq::<Seq<FieldV>>::empty()) == 0);
    } else {
        assert(recs.push(r)[0] == recs[0]);
        assert(recs.push(r).drop_first() =~= recs.drop_first().push(r));
        lemma_geo_counts_push(recs.drop_first(), r);
    }
}

/// The summary of a whois lookup: entries naming a company or organisation,
/// and entries carrying coordinates, counted per entry.
pub open spec fn spec_geo_tally(recs: Seq<Seq<FieldV>>) -> TallyV {
    TallyV {
        companies: spec_geo_companies(recs),
        addresses: spec_geo_addresses(recs),
        usernames: 0,
        emails: 0,
        phones: 0,
        hashes: 0,
        salts: 0,
        ips: 0,
        names: 0,
        passwords: 0,
        other: 0,
    }
}

/// Summarize a whois lookup over the per-address contents it returned.
#[verifier::loop_isolation(false)]
pub fn geo_tally(contents: &Vec<Record>) -> (t: Tally)
    ensures
        t@ == spec_geo_tally(recs_view(contents@)),
{
    let ghost grecs = recs_view(contents@);
    let mut companies: usize = 0;
    let mut addresses: usize = 0;
    let nr = contents.len();
    let mut ri: usize = 0;
    proof {
        assert(grecs.take(0) =~= Seq::<Seq<FieldV>>::empty());
    }
    while ri < nr
        invariant
            ri <= nr,
            companies == spec_geo_companies(grecs.take(ri as int)),
            addresses == spec_geo_addresses(grecs.take(ri as int)),
            companies <= ri,
            addresses <= ri,
        decreases nr - ri,
    {
        let rec = &contents[ri];
        let has_company = rec.get("company").is_some() || rec.get("org").is_some();
        let has_coords = rec.get("lat").is_some() && rec.get("lon").is_some();
        proof {
            assert(grecs.take(ri + 1) =~= grecs.take(ri as int).push(grecs[ri as int]));
            lemma_geo_counts_push(grecs.take(ri as int), grecs[ri as int]);
        }
        if has_company {
            companies = companies + 1;
        }
        if has_coords {
            addresses = addresses + 1;
        }
        ri = ri + 1;
    }
    proof {
        assert(grecs.take(nr as int) =~= grecs);
    }
    Tally {
        companies,
        addresses,
        usernames: 0,
        emails: 0,
        phones: 0,
        hashes: 0,
        salts: 0,
        ips: 0,
        names: 0,
        passwords: 0,
        other: 0,
    }
}

/// A value is keyed into a category exactly when some record stores it under
/// one of the category's field names.
pub proof fn lemma_keyed_values_contains(
    recs: Seq<Seq<FieldV>>,
    keys: Seq<Seq<char>>,
    v: Seq<char>,
)
    ensures
        spec_keyed_values(recs, keys).contains(v) <==> exists|i: int|
            0 <= i < recs.len() && spec_lookup_values(#[trigger] recs[i], keys).contains(v),
    decreases recs.len(),
{
    if recs.len() == 0 {
    } else {
        lemma_keyed_values_contains(recs.drop_first(), keys, v);
        if spec_keyed_values(recs, keys).contains(v) {
            if spec_lookup_values(recs[0], keys).contains(v) {
                assert(spec_lookup_values(recs[0], keys).contains(v));
            } else {
                let i = choose|i: int|
                    0 <= i < recs.drop_first().len() && spec_lookup_values(
                        #[trigger] recs.drop_first()[i],
                        keys,
                    ).contains(v);
                assert(recs.drop_first()[i] == recs[i + 1]);
                assert(spec_lookup_values(recs[i + 1], keys).contains(v));
            }
        }
        if exists|i: int|
            0 <= i < recs.len() && spec_lookup_values(#[trigger] recs[i], keys).contains(v) {
            let i = choose|i: int|
                0 <= i < recs.len() && spec_lookup_values(#[trigger] recs[i], keys).contains(v);
            if i == 0 {
                assert(spec_keyed_values(recs, keys).contains(v));
            } else {
                assert(recs.drop_first()[i - 1] == recs[i]);
                assert(spec_keyed_values(recs.drop_first(), keys).contains(v));
            }
        }
    }
}

/// A value is in the `other` bucket exactly when some record stores it under
/// an unrecognized field name.
pub proof fn lemma_other_values_contains(recs: Seq<Seq<FieldV>>, v: Seq<char>)
    ensures
        spec_other_values(recs).contains(v) <==> exists|i: int|
            0 <= i < recs.len() && spec_rec_other_values(#[trigger] recs[i]).contains(v),
    decreases recs.len(),
{
    if recs.len() == 0 {
    } else {
        lemma_other_values_contains(recs.drop_first(), v);
        if spec_other_values(recs).contains(v) {
            if spec_rec_other_values(recs[0]).contains(v) {
                assert(spec_rec_other_values(recs[0]).contains(v));
            } else {
                let i = choose|i: int|
                    0 <= i < recs.drop_first().len() && spec_rec_other_values(
                        #[trigger] recs.drop_first()[i],
                    ).contains(v);
                assert(recs.drop_first()[i] == recs[i + 1]);
                assert(spec_rec_other_values(recs[i + 1]).contains(v));
            }
        }
        if exists|i: int| 0 <= i < recs.len() && spec_rec_other_values(#[trigger] recs[i]).contains(
            v,
        ) {
            let i = choose|i: int|
                0 <= i < recs.len() && spec_rec_other_values(#[trigger] recs[i]).contains(v);
            if i == 0 {
                assert(spec_other_values(recs).contains(v));
            } else {
                assert(recs.drop_first()[i - 1] == recs[i]);
                assert(spec_other_values(recs.drop_first()).contains(v));
            }
        }
    }
}

/// Membership carries across two sequences holding the same elements.
proof fn lemma_same_multiset_contains(s1: Seq<Seq<FieldV>>, s2: Seq<Seq<FieldV>>, x: Seq<FieldV>)
    requires
        s1.to_multiset() == s2.to_multiset(),
        s1.contains(x),
    ensures
        s2.contains(x),
{
    s1.to_multiset_ensures();
    s2.to_multiset_ensures();
    assert(s1.to_multiset().count(x) > 0);
}

/// Two bags holding the same records feed the same values into a category.
pub proof fn lemma_category_values_permutation(
    r1: Seq<Seq<FieldV>>,
    r2: Seq<Seq<FieldV>>,
    c: Category,
)
    requires
        r1.to_multiset() == r2.to_multiset(),
    ensures
        spec_category_values(r1, c) == spec_category_values(r2, c),
{
    assert forall|v: Seq<char>|
        spec_category_values(r1, c).contains(v) == spec_category_values(r2, c).contains(v) by {
        if c is Other {
            lemma_other_values_contains(r1, v);
            lemma_other_values_contains(r2, v);
            if spec_other_values(r1).contains(v) {
                let i = choose|i: int|
                    0 <= i < r1.len() && spec_rec_other_values(#[trigger] r1[i]).contains(v);
                assert(r1.contains(r1[i]));
                lemma_same_multiset_contains(r1, r2, r1[i]);
                let j = choose|j: int| 0 <= j < r2.len() && r2[j] == r1[i];
                assert(spec_rec_other_values(r2[j]).contains(v));
            }
            if spec_other_values(r2).contains(v) {
                let i = choose|i: int|
                    0 <= i < r2.len() && spec_rec_other_values(#[trigger] r2[i]).contains(v);
                assert(r2.contains(r2[i]));
                lemma_same_multiset_contains(r2, r1, r2[i]);
                let j = choose|j: int| 0 <= j < r1.len() && r1[j] == r2[i];
                assert(spec_rec_other_values(r1[j]).contains(v));
            }
        } else {
            let keys = spec_aliases(c);
            lemma_keyed_values_contains(r1, keys, v);
            lemma_keyed_values_contains(r2, keys, v);
            if spec_keyed_values(r1, keys).contains(v) {
                let i = choose|i: int|
                    0 <= i < r1.len() && spec_lookup_values(#[trigger] r1[i], keys).contains(v);
                assert(r1.contains(r1[i]));
                lemma_same_multiset_contains(r1, r2, r1[i]);
                let j = choose|j: int| 0 <= j < r2.len() && r2[j] == r1[i];
                assert(spec_lookup_values(r2[j], keys).contains(v));
            }
            if spec_keyed_values(r2, keys).contains(v) {
                let i = choose|i: int|
                    0 <= i < r2.len() && spec_lookup_values(#[trigger] r2[i], keys).contains(v);
                assert(r2.contains(r2[i]));
                lemma_same_multiset_contains(r2, r1, r2[i]);
                let j = choose|j: int| 0 <= j < r1.len() && r1[j] == r2[i];
                assert(spec_lookup_values(r1[j], keys).contains(v));
            }
        }
    }
    assert(spec_category_values(r1, c) =~= spec_category_values(r2, c));
}

/// Normalization is invariant under record reordering: two bags holding the
/// same records, in any order, summarize to identical category counts.
pub proof fn lemma_tally_reorder_invariant(
    r1: Seq<Seq<FieldV>>,
    r2: Seq<Seq<FieldV>>,
    seedc: Category,
    seedv: Seq<char>,
)
    requires
        r1.to_multiset() == r2.to_multiset(),
    ensures
        spec_tally(r1, seedc, seedv) == spec_tally(r2, seedc, seedv),
{
    lemma_category_values_permutation(r1, r2, Category::Usernames);
    lemma_category_values_permutation(r1, r2, Category::Emails);
    lemma_category_values_permutation(r1, r2, Category::Phones);
    lemma_category_values_permutation(r1, r2, Category::Hashes);
    lemma_category_values_permutation(r1, r2, Category::Salts);
    lemma_category_values_permutation(r1, r2, Category::Ips);
    lemma_category_values_permutation(r1, r2, Category::Names);
    lemma_category_values_permutation(r1, r2, Category::Passwords);
    lemma_category_values_permutation(r1, r2, Category::Addresses);
    lemma_category_values_permutation(r1, r2, Category::Companies);
    lemma_category_values_permutation(r1, r2, Category::Other);
}

} // verus!

