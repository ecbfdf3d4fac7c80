//! Resources as the store sees them: an ordered list of named scalar fields,
//! plus the capability traits a servable domain type satisfies.

use vstd::prelude::*;

use crate::value::EntryModel;
use crate::value::PairsModel;
use crate::value::ValModel;
use crate::value::Value;
use crate::value::lemma_pairs_lookup_absent;
use crate::value::lemma_pairs_lookup_at;
use crate::value::lemma_pairs_remove_absent;
use crate::value::lemma_pairs_remove_at;
use crate::value::lemma_pairs_set_is_push;
use crate::value::lemma_pairs_set_is_update;
use crate::value::pairs_lookup;
use crate::value::pairs_remove;
use crate::value::pairs_set;

verus! {

/// The name of the identifier field every persisted resource carries.
pub open spec fn id_field() -> Seq<char> {
    "_id"@
}

/// The identifier a modelled record carries: the numeric value under `_id`.
pub open spec fn record_id(r: PairsModel) -> Option<u32> {
    match pairs_lookup(r, id_field()) {
        Some(ValModel::Num(n)) => Some(n),
        _ => None,
    }
}

/// The record with its identifier field set to `id`, or with that field
/// removed when `id` is absent.
pub open spec fn with_id(r: PairsModel, id: Option<u32>) -> PairsModel {
    match id {
        Some(n) => pairs_set(r, id_field(), ValModel::Num(n)),
        None => pairs_remove(r, id_field()),
    }
}

/// The record without its identifier field: what a resource's own data is,
/// apart from the store-assigned identity.
pub open spec fn without_id(r: PairsModel) -> PairsModel {
    pairs_remove(r, id_field())
}

/// A record given an identifier carries exactly that identifier.
pub proof fn lemma_with_id_id(r: PairsModel, n: u32)
    ensures
        record_id(with_id(r, Some(n))) == Some(n),
{
    crate::value::lemma_pairs_set_lookup(r, id_field(), ValModel::Num(n));
}

/// A resource in the neutral form this core works on: named scalar fields in
/// declaration order. Typed domain values are converted to and from this
/// form at the boundary.
pub struct Record {
    entries: Vec<(String, Value)>,
}

/// The models of a list of records, in order.
pub open spec fn records_view(rows: Seq<Record>) -> Seq<PairsModel> {
    rows.map_values(|r: Record| r@)
}

/// The models of a list of owned field entries.
pub open spec fn entries_view(entries: Seq<(String, Value)>) -> PairsModel {
    entries.map_values(|e: (String, Value)| (e.0@, e.1@))
}

impl View for Record {
    type V = PairsModel;

    closed spec fn view(&self) -> PairsModel {
        entries_view(self.entries@)
    }
}

impl Record {
    /// A record with no fields.
    pub fn new() -> (r: Record)
        ensures
            r@ == Seq::<EntryModel>::empty(),
    {
        let r = Record { entries: Vec::new() };
        proof {
            assert(r@ =~= Seq::<EntryModel>::empty());
        }
        r
    }

    /// How many fields the record carries.
    pub fn len(&self) -> (r: usize)
        ensures
            r == self@.len(),
    {
        self.entries.len()
    }

    /// The field entries, in order, as owned name/value pairs.
    pub fn entries(&self) -> (r: &Vec<(String, Value)>)
        ensures
            self@ == entries_view(r@),
    {
        &self.entries
    }

    /// The index of the first field named `key`, if any.
    fn index_of(&self, key: &String) -> (r: Option<usize>)
        ensures
            match r {
                Some(i) => {
                    &&& 0 <= i < self@.len()
                    &&& self@[i as int].0 == key@
                    &&& forall|j: int| 0 <= j < i ==> self@[j].0 != key@
                },
                None => forall|j: int| 0 <= j < self@.len() ==> self@[j].0 != key@,
            },
    {
        let mut i: usize = 0;
        while i < self.entries.len()
            invariant
                0 <= i <= self@.len(),
                self@.len() == self.entries@.len(),
                forall|j: int| 0 <= j < i ==> self@[j].0 != key@,
            decreases self.entries.len() - i,
        {
            if self.entries[i].0 == *key {
                return Some(i);
            }
            i = i + 1;
        }
        None
    }

    /// The value of the first field named `name`, if any.
    pub fn get(&self, name: &str) -> (r: Option<&Value>)
        ensures
            match r {
                Some(v) => pairs_lookup(self@, name@) == Some(v@),
                None => pairs_lookup(self@, name@) is None,
            },
    {
        let key: String = name.to_owned();
        match self.index_of(&key) {
            Some(i) => {
                proof {
                    lemma_pairs_lookup_at(self@, name@, i as int);
                }
                Some(&self.entries[i].1)
            },
            None => {
                proof {
                    lemma_pairs_lookup_absent(self@, name@);
                }
                None
            },
        }
    }

    /// Binds `name` to `value`: replaces the first field of that name in
    /// place, or appends a new field when the name is absent.
    pub fn set(&mut self, name: &str, value: Value)
        ensures
            final(self)@ == pairs_set(old(self)@, name@, value@),
    {
        let key: String = name.to_owned();
        match self.index_of(&key) {
            Some(i) => {
                proof {
                    lemma_pairs_set_is_update(self@, name@, value@, i as int);
                }
                *vstd::std_specs::vec::vec_index_mut(&mut self.entries, i) = (key, value);
                proof {
                    assert(self@ =~= pairs_set(old(self)@, name@, value@));
                }
            },
            None => {
                proof {
                    lemma_pairs_set_is_push(self@, name@, value@);
                }
                self.entries.push((key, value));
                proof {
                    assert(self@ =~= pairs_set(old(self)@, name@, value@));
                }
            },
        }
    }

    /// The record's identifier: the numeric value of its `_id` field.
    pub fn get_id(&self) -> (r: Option<u32>)
        ensures
            r == record_id(self@),
    {
        match self.get("_id") {
            Some(Value::Num(n)) => Some(*n),
            _ => None,
        }
    }

    /// Sets or clears the record's identifier field.
    pub fn set_id(&mut self, id: Option<u32>)
        ensures
            final(self)@ == with_id(old(self)@, id),
    {
        match id {
            Some(n) => {
                self.set("_id", Value::Num(n));
            },
            None => {
                let key: String = "_id".to_owned();
                match self.index_of(&key) {
                    Some(i) => {
                        proof {
                            lemma_pairs_remove_at(self@, id_field(), i as int);
                        }
                        self.entries.remove(i);
                        proof {
                            assert(self@ =~= pairs_remove(old(self)@, id_field()));
                        }
                    },
                    None => {
                        proof {
                            lemma_pairs_remove_absent(self@, id_field());
                        }
                    },
                }
            },
        }
    }

    /// An owned copy whose fields are the same.
    pub fn duplicate(&self) -> (r: Record)
        ensures
            r@ == self@,
    {
        let mut out: Vec<(String, Value)> = Vec::new();
        let mut i: usize = 0;
        while i < self.entries.len()
            invariant
                0 <= i <= self.entries@.len(),
                out@ =~= self.entries@.take(i as int),
            decreases self.entries.len() - i,
        {
            out.push((self.entries[i].0.clone(), self.entries[i].1.duplicate()));
            i = i + 1;
        }
        let r = Record { entries: out };
        proof {
            assert(r.entries@ =~= self.entries@);
        }
        r
    }
}

/// The capability set a domain type needs to be servable: it names its
/// collection and carries an optional store identifier.
pub trait DataResource {
    fn get_collection_name() -> String;

    fn get_id(&self) -> Option<u32>;

    fn set_id(&mut self, id: Option<u32>);
}

/// The capability of a frontend type to populate its calculated fields from
/// a freshly retrieved base value.
pub trait FrontendExtended<R> {
    fn new_with_base(base: R);
}

} // verus!
