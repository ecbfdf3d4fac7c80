//! Typed scalar values and the shared mathematical model of name/value pairs.
//!
//! Filters and stored documents are both ordered lists of `(name, value)`
//! pairs. This module defines the executable scalar type [`Value`], its
//! mathematical image [`ValModel`], and the spec-level operations on pair
//! sequences (lookup, set, remove) together with the lemmas that relate them.

use vstd::prelude::*;

verus! {

/// A typed scalar carried by a filter entry or a document field: an unsigned
/// number, a boolean, or raw text.
pub enum Value {
    Num(u32),
    Bool(bool),
    Text(String),
}

/// The mathematical image of a [`Value`], with text as a character sequence.
pub enum ValModel {
    Num(u32),
    Bool(bool),
    Text(Seq<char>),
}

impl View for Value {
    type V = ValModel;

    open spec fn view(&self) -> ValModel {
        match self {
            Value::Num(n) => ValModel::Num(*n),
            Value::Bool(b) => ValModel::Bool(*b),
            Value::Text(s) => ValModel::Text(s@),
        }
    }
}

impl Value {
    /// Structural equality of two scalars, deciding equality of their models.
    pub fn equals(&self, other: &Value) -> (r: bool)
        ensures
            r == (self@ == other@),
    {
        match (self, other) {
            (Value::Num(a), Value::Num(b)) => *a == *b,
            (Value::Bool(a), Value::Bool(b)) => *a == *b,
            (Value::Text(a), Value::Text(b)) => *a == *b,
            (Value::Num(_), Value::Bool(_)) => false,
            (Value::Num(_), Value::Text(_)) => false,
            (Value::Bool(_), Value::Num(_)) => false,
            (Value::Bool(_), Value::Text(_)) => false,
            (Value::Text(_), Value::Num(_)) => false,
            (Value::Text(_), Value::Bool(_)) => false,
        }
    }

    /// An owned copy whose model is the same.
    pub fn duplicate(&self) -> (r: Value)
        ensures
            r == *self,
    {
        match self {
            Value::Num(n) => Value::Num(*n),
            Value::Bool(b) => Value::Bool(*b),
            Value::Text(s) => Value::Text(s.clone()),
        }
    }
}

/// One modelled pair: a field name and the value under it.
pub type EntryModel = (Seq<char>, ValModel);

/// The model of a whole pair list, in order.
pub type PairsModel = Seq<EntryModel>;

/// The value under the first occurrence of `key`, if any.
pub open spec fn pairs_lookup(s: PairsModel, key: Seq<char>) -> Option<ValModel>
    decreases s.len(),
{
    if s.len() == 0 {
        None
    } else if s[0].0 == key {
        Some(s[0].1)
    } else {
        pairs_lookup(s.drop_first(), key)
    }
}

/// Whether some pair carries the name `key`.
pub open spec fn pairs_has_key(s: PairsModel, key: Seq<char>) -> bool {
    pairs_lookup(s, key) is Some
}

/// The list with `key` bound to `value`: the first occurrence of `key` is
/// replaced in place, or the pair is appended when `key` is absent.
pub open spec fn pairs_set(s: PairsModel, key: Seq<char>, value: ValModel) -> PairsModel
    decreases s.len(),
{
    if s.len() == 0 {
        seq![(key, value)]
    } else if s[0].0 == key {
        seq![(key, value)] + s.drop_first()
    } else {
        seq![s[0]] + pairs_set(s.drop_first(), key, value)
    }
}

/// The list without the first occurrence of `key` (unchanged when absent).
pub open spec fn pairs_remove(s: PairsModel, key: Seq<char>) -> PairsModel
    decreases s.len(),
{
    if s.len() == 0 {
        s
    } else if s[0].0 == key {
        s.drop_first()
    } else {
        seq![s[0]] + pairs_remove(s.drop_first(), key)
    }
}

/// When the first `i` pairs all miss `key`, lookup is decided by the rest.
pub proof fn lemma_pairs_lookup_skip(s: PairsModel, key: Seq<char>, i: int)
    requires
        0 <= i <= s.len(),
        forall|j: int| 0 <= j < i ==> s[j].0 != key,
    ensures
        pairs_lookup(s, key) == pairs_lookup(s.skip(i), key),
    decreases i,
{
    if i > 0 {
        assert(s.drop_first().skip(i - 1) =~= s.skip(i));
        lemma_pairs_lookup_skip(s.drop_first(), key, i - 1);
    } else {
        assert(s.skip(0) =~= s);
    }
}

/// When pair `i` is the first occurrence of `key`, lookup returns its value.
pub proof fn lemma_pairs_lookup_at(s: PairsModel, key: Seq<char>, i: int)
    requires
        0 <= i < s.len(),
        s[i].0 == key,
        forall|j: int| 0 <= j < i ==> s[j].0 != key,
    ensures
        pairs_lookup(s, key) == Some(s[i].1),
    decreases i,
{
    if i > 0 {
        lemma_pairs_lookup_at(s.drop_first(), key, i - 1);
    }
}

/// When no pair carries `key`, lookup misses.
pub proof fn lemma_pairs_lookup_absent(s: PairsModel, key: Seq<char>)
    requires
        forall|j: int| 0 <= j < s.len() ==> s[j].0 != key,
    ensures
        pairs_lookup(s, key) is None,
{
    lemma_pairs_lookup_skip(s, key, s.len() as int);
    assert(s.skip(s.len() as int) =~= Seq::<EntryModel>::empty());
}

/// Setting a key and then looking it up yields the new value.
pub proof fn lemma_pairs_set_lookup(s: PairsModel, key: Seq<char>, value: ValModel)
    ensures
        pairs_lookup(pairs_set(s, key, value), key) == Some(value),
    decreases s.len(),
{
    if s.len() != 0 && s[0].0 != key {
        lemma_pairs_set_lookup(s.drop_first(), key, value);
        assert((seq![s[0]] + pairs_set(s.drop_first(), key, value)).drop_first()
            =~= pairs_set(s.drop_first(), key, value));
    }
}

/// Setting one key leaves every other key's lookup unchanged.
pub proof fn lemma_pairs_set_lookup_other(
    s: PairsModel,
    key: Seq<char>,
    value: ValModel,
    other: Seq<char>,
)
    requires
        other != key,
    ensures
        pairs_lookup(pairs_set(s, key, value), other) == pairs_lookup(s, other),
    decreases s.len(),
{
    if s.len() == 0 {
        let t = pairs_set(s, key, value);
        assert(t =~= seq![(key, value)]);
        assert(t.drop_first() =~= Seq::<EntryModel>::empty());
        assert(pairs_lookup(t, other) == pairs_lookup(t.drop_first(), other));
        assert(pairs_lookup(Seq::<EntryModel>::empty(), other) is None);
    } else if s[0].0 == key {
        assert((seq![(key, value)] + s.drop_first()).drop_first() =~= s.drop_first());
    } else {
        lemma_pairs_set_lookup_other(s.drop_first(), key, value, other);
        assert((seq![s[0]] + pairs_set(s.drop_first(), key, value)).drop_first()
            =~= pairs_set(s.drop_first(), key, value));
    }
}

/// A key present in the list after a set was either the set key or present
/// before.
pub proof fn lemma_pairs_set_keys(s: PairsModel, key: Seq<char>, value: ValModel, k: Seq<char>)
    requires
        pairs_has_key(pairs_set(s, key, value), k),
    ensures
        k == key || pairs_has_key(s, k),
{
    if k != key {
        lemma_pairs_set_lookup_other(s, key, value, k);
    }
}

/// When pair `i` is the first occurrence of `key`, setting `key` replaces it
/// in place.
pub proof fn lemma_pairs_set_is_update(s: PairsModel, key: Seq<char>, value: ValModel, i: int)
    requires
        0 <= i < s.len(),
        s[i].0 == key,
        forall|j: int| 0 <= j < i ==> s[j].0 != key,
    ensures
        pairs_set(s, key, value) =~= s.update(i, (key, value)),
    decreases i,
{
    if i == 0 {
        assert(pairs_set(s, key, value) =~= seq![(key, value)] + s.drop_first());
    } else {
        lemma_pairs_set_is_update(s.drop_first(), key, value, i - 1);
        assert(pairs_set(s, key, value) =~= seq![s[0]] + s.drop_first().update(i - 1, (key, value)));
    }
}

/// When `key` is absent, setting it appends the pair.
pub proof fn lemma_pairs_set_is_push(s: PairsModel, key: Seq<char>, value: ValModel)
    requires
        forall|j: int| 0 <= j < s.len() ==> s[j].0 != key,
    ensures
        pairs_set(s, key, value) =~= s.push((key, value)),
    decreases s.len(),
{
    if s.len() != 0 {
        lemma_pairs_set_is_push(s.drop_first(), key, value);
    }
}

/// When pair `i` is the first occurrence of `key`, removing `key` deletes
/// exactly that pair.
pub proof fn lemma_pairs_remove_at(s: PairsModel, key: Seq<char>, i: int)
    requires
        0 <= i < s.len(),
        s[i].0 == key,
        forall|j: int| 0 <= j < i ==> s[j].0 != key,
    ensures
        pairs_remove(s, key) =~= s.remove(i),
    decreases i,
{
    if i == 0 {
        assert(s.drop_first() =~= s.remove(0));
    } else {
        lemma_pairs_remove_at(s.drop_first(), key, i - 1);
        assert(pairs_remove(s, key) =~= seq![s[0]] + s.drop_first().remove(i - 1));
    }
}

/// When no pair carries `key`, removing it changes nothing.
pub proof fn lemma_pairs_remove_absent(s: PairsModel, key: Seq<char>)
    requires
        forall|j: int| 0 <= j < s.len() ==> s[j].0 != key,
    ensures
        pairs_remove(s, key) =~= s,
    decreases s.len(),
{
    if s.len() != 0 {
        lemma_pairs_remove_absent(s.drop_first(), key);
    }
}

/// Removing a key after setting it gives the same list as removing it
/// directly.
pub proof fn lemma_pairs_set_remove(s: PairsModel, key: Seq<char>, value: ValModel)
    ensures
        pairs_remove(pairs_set(s, key, value), key) =~= pairs_remove(s, key),
    decreases s.len(),
{
    if s.len() == 0 {
        assert(pairs_remove(seq![(key, value)], key) =~= Seq::<EntryModel>::empty());
        assert(pairs_remove(s, key) =~= s);
    } else if s[0].0 == key {
        assert((seq![(key, value)] + s.drop_first()).drop_first() =~= s.drop_first());
    } else {
        lemma_pairs_set_remove(s.drop_first(), key, value);
        assert((seq![s[0]] + pairs_set(s.drop_first(), key, value)).drop_first()
            =~= pairs_set(s.drop_first(), key, value));
    }
}

} // verus!
