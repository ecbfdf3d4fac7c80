//! Equality filters: the abstraction over a store's native query
//! representation, the neutral concrete filter, the matching relation
//! against stored records, and the construction of filters from request
//! parameters.

use vstd::prelude::*;

use crate::fields::Field;
use crate::fields::FieldModel;
use crate::fields::fields_view;
use crate::query::QueryPairsModel;
use crate::query::parse_bool;
use crate::query::parse_bool_spec;
use crate::query::parse_u32;
use crate::query::parse_u32_spec;
use crate::query::qpairs_view;
use crate::query::query_get;
use crate::query::query_lookup;
use crate::resource::Record;
use crate::resource::entries_view;
use crate::resource::id_field;
use crate::value::EntryModel;
use crate::value::PairsModel;
use crate::value::ValModel;
use crate::value::Value;
use crate::value::lemma_pairs_lookup_at;
use crate::value::lemma_pairs_lookup_absent;
use crate::value::lemma_pairs_set_is_push;
use crate::value::lemma_pairs_set_is_update;
use crate::value::pairs_lookup;
use crate::value::pairs_set;

verus! {

/// Why a request's parameters could not be turned into a filter: the named
/// field's value did not parse as a number, or as a boolean.
pub enum FilterError {
    Numeric(String),
    Boolean(String),
}

/// The mathematical image of a [`FilterError`].
pub enum FilterErrorModel {
    Numeric(Seq<char>),
    Boolean(Seq<char>),
}

impl View for FilterError {
    type V = FilterErrorModel;

    open spec fn view(&self) -> FilterErrorModel {
        match self {
            FilterError::Numeric(f) => FilterErrorModel::Numeric(f@),
            FilterError::Boolean(f) => FilterErrorModel::Boolean(f@),
        }
    }
}

impl FilterError {
    /// The name of the field whose value was rejected.
    pub fn field_name(&self) -> (r: &String)
        ensures
            match self@ {
                FilterErrorModel::Numeric(f) => r@ == f,
                FilterErrorModel::Boolean(f) => r@ == f,
            },
    {
        match self {
            FilterError::Numeric(f) => f,
            FilterError::Boolean(f) => f,
        }
    }
}

/// A store filter under construction: a set of equality constraints,
/// abstracting over the store's native query representation. Its default
/// state constrains nothing.
pub trait Filter: Sized {
    /// The constraints the filter holds, as name/value pairs in order.
    spec fn model(&self) -> PairsModel;

    /// A filter with no constraints.
    fn empty() -> (r: Self)
        ensures
            r.model() == Seq::<EntryModel>::empty(),
    ;

    /// Constrains `key` to equal `value`, replacing any earlier constraint
    /// on the same key; returns the value previously under `key`, if any.
    fn insert(&mut self, key: &str, value: Value) -> (prev: Option<Value>)
        ensures
            final(self).model() == pairs_set(old(self).model(), key@, value@),
            match prev {
                Some(p) => pairs_lookup(old(self).model(), key@) == Some(p@),
                None => pairs_lookup(old(self).model(), key@) is None,
            },
    ;
}

/// The neutral concrete filter: named scalar constraints in insertion
/// order. Store adapters translate it into their native representation.
pub struct FieldFilter {
    entries: Vec<(String, Value)>,
}

impl View for FieldFilter {
    type V = PairsModel;

    closed spec fn view(&self) -> PairsModel {
        entries_view(self.entries@)
    }
}

impl FieldFilter {
    /// The constraint entries, in order, as owned name/value pairs.
    pub fn entries(&self) -> (r: &Vec<(String, Value)>)
        ensures
            self@ == entries_view(r@),
    {
        &self.entries
    }

    /// The index of the first constraint on `key`, if any.
    fn index_of(&self, key: &String) -> (r: Option<usize>)
        ensures
            match r {
                Some(i) => {
                    &&& 0 <= i < self@.len()
                    &&& self@[i as int].0 == key@
                    &&& forall|j: int| 0 <= j < i ==> self@[j].0 != key@
                },
                None => forall|j: int| 0 <= j < self@.len() ==> self@[j].0 != key@,
            },
    {
        let mut i: usize = 0;
        while i < self.entries.len()
            invariant
                0 <= i <= self@.len(),
                self@.len() == self.entries@.len(),
                forall|j: int| 0 <= j < i ==> self@[j].0 != key@,
            decreases self.entries.len() - i,
        {
            if self.entries[i].0 == *key {
                return Some(i);
            }
            i = i + 1;
        }
        None
    }
}

impl Filter for FieldFilter {
    open spec fn model(&self) -> PairsModel {
        self@
    }

    fn empty() -> (r: Self) {
        let r = FieldFilter { entries: Vec::new() };
        proof {
            assert(r@ =~= Seq::<EntryModel>::empty());
        }
        r
    }

    fn insert(&mut self, key: &str, value: Value) -> (prev: Option<Value>) {
        let key_owned: String = key.to_owned();
        match self.index_of(&key_owned) {
            Some(i) => {
                proof {
                    lemma_pairs_set_is_update(self@, key@, value@, i as int);
                    lemma_pairs_lookup_at(self@, key@, i as int);
                }
                let prev = self.entries[i].1.duplicate();
                *vstd::std_specs::vec::vec_index_mut(&mut self.entries, i) = (key_owned, value);
                proof {
                    assert(self@ =~= pairs_set(old(self)@, key@, value@));
                }
                Some(prev)
            },
            None => {
                proof {
                    lemma_pairs_set_is_push(self@, key@, value@);
                    lemma_pairs_lookup_absent(self@, key@);
                }
                self.entries.push((key_owned, value));
                proof {
                    assert(self@ =~= pairs_set(old(self)@, key@, value@));
                }
                None
            },
        }
    }
}

impl Default for FieldFilter {
    /// The default filter constrains nothing.
    fn default() -> (r: Self)
        ensures
            r@ == Seq::<EntryModel>::empty(),
    {
        let r = FieldFilter { entries: Vec::new() };
        proof {
            assert(r@ =~= Seq::<EntryModel>::empty());
        }
        r
    }
}

/// Whether a record satisfies every constraint of a filter: each constrained
/// name carries exactly the constrained value.
pub open spec fn matches_filter(r: PairsModel, f: PairsModel) -> bool {
    forall|i: int| 0 <= i < f.len() ==> #[trigger] pairs_lookup(r, f[i].0) == Some(f[i].1)
}

/// The stored records satisfying a filter, in storage order.
pub open spec fn matching(rows: Seq<PairsModel>, f: PairsModel) -> Seq<PairsModel>
    decreases rows.len(),
{
    if rows.len() == 0 {
        Seq::empty()
    } else {
        let rest = matching(rows.drop_last(), f);
        if matches_filter(rows.last(), f) {
            rest.push(rows.last())
        } else {
            rest
        }
    }
}

/// The first stored record satisfying a filter, if any.
pub open spec fn first_matching(rows: Seq<PairsModel>, f: PairsModel) -> Option<PairsModel>
    decreases rows.len(),
{
    if rows.len() == 0 {
        None
    } else if matches_filter(rows[0], f) {
        Some(rows[0])
    } else {
        first_matching(rows.drop_first(), f)
    }
}

/// When no row before `i` matches and row `i` does, row `i` is the first
/// match.
pub proof fn lemma_first_matching_at(rows: Seq<PairsModel>, f: PairsModel, i: int)
    requires
        0 <= i < rows.len(),
        matches_filter(rows[i], f),
        forall|j: int| 0 <= j < i ==> !matches_filter(rows[j], f),
    ensures
        first_matching(rows, f) == Some(rows[i]),
    decreases i,
{
    if i > 0 {
        lemma_first_matching_at(rows.drop_first(), f, i - 1);
    }
}

/// When no row matches, there is no first match.
pub proof fn lemma_first_matching_none(rows: Seq<PairsModel>, f: PairsModel)
    requires
        forall|j: int| 0 <= j < rows.len() ==> !matches_filter(rows[j], f),
    ensures
        first_matching(rows, f) is None,
    decreases rows.len(),
{
    if rows.len() != 0 {
        lemma_first_matching_none(rows.drop_first(), f);
    }
}

/// Decides whether `r` satisfies every constraint of `f`.
pub fn record_matches(r: &Record, f: &FieldFilter) -> (b: bool)
    ensures
        b == matches_filter(r@, f@),
{
    let mut i: usize = 0;
    while i < f.entries.len()
        invariant
            0 <= i <= f@.len(),
            f@.len() == f.entries@.len(),
            forall|j: int| 0 <= j < i ==> #[trigger] pairs_lookup(r@, f@[j].0) == Some(f@[j].1),
        decreases f.entries.len() - i,
    {
        proof {
            assert(f@[i as int] == (f.entries@[i as int].0@, f.entries@[i as int].1@));
        }
        let found = r.get(f.entries[i].0.as_str());
        match found {
            Some(v) => {
                if !v.equals(&f.entries[i].1) {
                    proof {
                        assert(pairs_lookup(r@, f@[i as int].0) != Some(f@[i as int].1));
                    }
                    return false;
                }
            },
            None => {
                proof {
                    assert(pairs_lookup(r@, f@[i as int].0) != Some(f@[i as int].1));
                }
                return false;
            },
        }
        i = i + 1;
    }
    true
}

/// What filter construction yields on a field list and decoded query
/// pairs: for each declared field present among the parameters, in
/// declaration order, the parameter's value parsed according to the field's
/// kind; the first field whose value does not parse decides the error.
pub open spec fn collection_filter(fs: Seq<FieldModel>, ps: QueryPairsModel) -> Result<
    PairsModel,
    FilterErrorModel,
>
    decreases fs.len(),
{
    if fs.len() == 0 {
        Ok(Seq::empty())
    } else {
        match collection_filter(fs.drop_last(), ps) {
            Err(e) => Err(e),
            Ok(acc) => {
                let f = fs.last();
                match query_lookup(ps, f.name) {
                    None => Ok(acc),
                    Some(v) => if f.is_num {
                        match parse_u32_spec(v) {
                            Some(n) => Ok(pairs_set(acc, f.name, ValModel::Num(n))),
                            None => Err(FilterErrorModel::Numeric(f.name)),
                        }
                    } else if f.is_bool {
                        match parse_bool_spec(v) {
                            Some(b) => Ok(pairs_set(acc, f.name, ValModel::Bool(b))),
                            None => Err(FilterErrorModel::Boolean(f.name)),
                        }
                    } else {
                        Ok(pairs_set(acc, f.name, ValModel::Text(v)))
                    },
                }
            },
        }
    }
}

/// Once a prefix of the field list yields an error, the whole list does.
proof fn lemma_collection_filter_err(fs: Seq<FieldModel>, ps: QueryPairsModel, i: int)
    requires
        0 <= i <= fs.len(),
        collection_filter(fs.take(i), ps) is Err,
    ensures
        collection_filter(fs, ps) == collection_filter(fs.take(i), ps),
    decreases fs.len() - i,
{
    if i < fs.len() {
        assert(fs.take(i + 1).drop_last() =~= fs.take(i));
        lemma_collection_filter_err(fs, ps, i + 1);
    } else {
        assert(fs.take(i) =~= fs);
    }
}

/// Builds the filter for a collection request from the declared fields and
/// the decoded query parameters, exactly as [`collection_filter`] says.
pub fn build_collection_filter<F: Filter>(fields: &Vec<Field>, params: &Vec<(String, String)>) -> (r:
    Result<F, FilterError>)
    ensures
        match r {
            Ok(f) => collection_filter(fields_view(fields@), qpairs_view(params@))
                == Ok::<PairsModel, FilterErrorModel>(f.model()),
            Err(e) => collection_filter(fields_view(fields@), qpairs_view(params@))
                == Err::<PairsModel, FilterErrorModel>(e@),
        },
{
    let ghost fs = fields_view(fields@);
    let ghost ps = qpairs_view(params@);
    let mut filter = F::empty();
    let mut i: usize = 0;
    proof {
        assert(fs.take(0) =~= Seq::<FieldModel>::empty());
    }
    while i < fields.len()
        invariant
            0 <= i <= fields@.len(),
            fs == fields_view(fields@),
            ps == qpairs_view(params@),
            fs.len() == fields@.len(),
            collection_filter(fs.take(i as int), ps) == Ok::<PairsModel, FilterErrorModel>(
                filter.model(),
            ),
        decreases fields.len() - i,
    {
        proof {
            assert(fs.take(i as int + 1).drop_last() =~= fs.take(i as int));
            assert(fs.take(i as int + 1).last() == fs[i as int]);
        }
        let field = &fields[i];
        match query_get(params, field.name.as_str()) {
            None => {
            },
            Some(v) => {
                if field.is_num {
                    match parse_u32(v.as_str()) {
                        Some(n) => {
                            filter.insert(field.name.as_str(), Value::Num(n));
                        },
                        None => {
                            let e = FilterError::Numeric(field.name.clone());
                            proof {
                                lemma_collection_filter_err(fs, ps, i as int + 1);
                            }
                            return Err(e);
                        },
                    }
                } else if field.is_bool {
                    match parse_bool(v.as_str()) {
                        Some(b) => {
                            filter.insert(field.name.as_str(), Value::Bool(b));
                        },
                        None => {
                            let e = FilterError::Boolean(field.name.clone());
                            proof {
                                lemma_collection_filter_err(fs, ps, i as int + 1);
                            }
                            return Err(e);
                        },
                    }
                } else {
                    filter.insert(field.name.as_str(), Value::Text(v.clone()));
                }
            },
        }
        i = i + 1;
    }
    proof {
        assert(fs.take(fields@.len() as int) =~= fs);
    }
    Ok(filter)
}

/// The single-constraint filter selecting the record with identifier `n`.
pub open spec fn identifier_filter_model(n: u32) -> PairsModel {
    seq![(id_field(), ValModel::Num(n))]
}

/// What identifier-filter construction yields on a path parameter: the
/// identifier filter when the parameter is a decimal number, an error on the
/// identifier field otherwise.
pub open spec fn identifier_filter_spec(s: Seq<char>) -> Result<PairsModel, FilterErrorModel> {
    match parse_u32_spec(s) {
        Some(n) => Ok(identifier_filter_model(n)),
        None => Err(FilterErrorModel::Numeric(id_field())),
    }
}

/// Builds the filter for a single-item request from the identifier path
/// parameter, exactly as [`identifier_filter_spec`] says.
pub fn build_identifier_filter<F: Filter>(id_param: &str) -> (r: Result<F, FilterError>)
    ensures
        match r {
            Ok(f) => identifier_filter_spec(id_param@) == Ok::<PairsModel, FilterErrorModel>(
                f.model(),
            ),
            Err(e) => identifier_filter_spec(id_param@) == Err::<PairsModel, FilterErrorModel>(e@),
        },
{
    match parse_u32(id_param) {
        Some(n) => {
            let mut f = F::empty();
            f.insert("_id", Value::Num(n));
            proof {
                assert(f.model() =~= identifier_filter_model(n));
            }
            Ok(f)
        },
        None => Err(FilterError::Numeric("_id".to_owned())),
    }
}

} // verus!
