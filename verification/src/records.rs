//! Provider replies as the gateway reads them: bags of records, each record a
//! list of named fields whose names vary by provider and by dataset.

use vstd::prelude::*;

verus! {

/// One named field of a provider record.
#[derive(Debug)]
pub struct Field {
    pub name: String,
    pub value: String,
}

/// The mathematical image of a field: its name and value as character
/// sequences.
pub struct FieldV {
    pub name: Seq<char>,
    pub value: Seq<char>,
}

impl View for Field {
    type V = FieldV;

    open spec fn view(&self) -> FieldV {
        FieldV { name: self.name@, value: self.value@ }
    }
}

/// One provider record: a mapping from field name to value, read as the
/// original reply listed it.
#[derive(Debug)]
pub struct Record {
    pub fields: Vec<Field>,
}

impl View for Record {
    type V = Seq<FieldV>;

    open spec fn view(&self) -> Seq<FieldV> {
        self.fields@.map_values(|f: Field| f@)
    }
}

/// One named dataset of a provider reply, with the records it matched.
#[derive(Debug)]
pub struct Dataset {
    pub name: String,
    pub entries: Vec<Record>,
}

impl Dataset {
    /// The records of the dataset, as sequences of fields.
    pub open spec fn entries_view(&self) -> Seq<Seq<FieldV>> {
        self.entries@.map_values(|r: Record| r@)
    }
}

/// The value stored under a field name: the first field that carries the
/// name, if any.
pub open spec fn spec_record_get(rec: Seq<FieldV>, key: Seq<char>) -> Option<Seq<char>>
    decreases rec.len(),
{
    if rec.len() == 0 {
        None
    } else if rec[0].name == key {
        Some(rec[0].value)
    } else {
        spec_record_get(rec.drop_first(), key)
    }
}

impl Record {
    /// An exact copy of the record.
    pub fn duplicate(&self) -> (r: Record)
        ensures
            r@ == self@,
    {
        let n = self.fields.len();
        let mut fields: Vec<Field> = Vec::new();
        let mut i: usize = 0;
        while i < n
            invariant
                n == self.fields@.len(),
                i <= n,
                fields@.len() == i,
                forall|j: int| 0 <= j < i ==> #[trigger] fields@[j]@ == self.fields@[j]@,
            decreases n - i,
        {
            let f = &self.fields[i];
            fields.push(Field { name: f.name.clone(), value: f.value.clone() });
            i = i + 1;
        }
        let r = Record { fields };
        proof {
            assert(r@ =~= self@);
        }
        r
    }

    /// Look a field up by name.
    pub fn get(&self, key: &str) -> (r: Option<&String>)
        ensures
            match r {
                Some(v) => spec_record_get(self@, key@) == Some(v@),
                None => spec_record_get(self@, key@) is None,
            },
    {
        let n = self.fields.len();
        let mut i: usize = 0;
        proof {
            assert(self@.skip(0) =~= self@);
        }
        while i < n
            invariant
                n == self.fields.len(),
                i <= n,
                spec_record_get(self@, key@) == spec_record_get(self@.skip(i as int), key@),
        decreases n - i,
        {
            proof {
                assert(self@.skip(i as int)[0] == self@[i as int]);
                assert(self@.skip(i as int).drop_first() =~= self@.skip(i + 1));
            }
            if crate::text::str_equal(&self.fields[i].name, key) {
                return Some(&self.fields[i].value);
            }
            i = i + 1;
        }
        proof {
            assert(self@.skip(n as int) =~= Seq::<FieldV>::empty());
        }
        None
    }
}

} // verus!
