//! The laws the filter-construction and storage model obey, stated over the
//! same spec functions the executable contracts use.

use vstd::prelude::*;

use crate::fields::FieldModel;
use crate::filter::FilterErrorModel;
use crate::filter::collection_filter;
use crate::filter::first_matching;
use crate::filter::identifier_filter_model;
use crate::filter::matches_filter;
use crate::filter::matching;
use crate::query::QueryPairsModel;
use crate::query::parse_bool_spec;
use crate::query::parse_u32_spec;
use crate::query::query_lookup;
use crate::resource::id_field;
use crate::resource::record_id;
use crate::resource::with_id;
use crate::resource::without_id;
use crate::value::EntryModel;
use crate::value::PairsModel;
use crate::value::ValModel;
use crate::value::lemma_pairs_set_keys;
use crate::value::lemma_pairs_set_lookup;
use crate::value::lemma_pairs_set_remove;
use crate::value::pairs_has_key;
use crate::value::pairs_lookup;

verus! {

/// Filter construction never references a field absent from the declared
/// descriptor list: every name constrained by a successfully built
/// collection filter is the name of some declared field.
pub proof fn lemma_filter_names_declared(
    fs: Seq<FieldModel>,
    ps: QueryPairsModel,
    m: PairsModel,
    k: Seq<char>,
)
    requires
        collection_filter(fs, ps) == Ok::<PairsModel, FilterErrorModel>(m),
        pairs_has_key(m, k),
    ensures
        exists|j: int| 0 <= j < fs.len() && (#[trigger] fs[j]).name == k,
    decreases fs.len(),
{
    if fs.len() == 0 {
        assert(pairs_lookup(m, k) is None);
    } else {
        let prefix = fs.drop_last();
        match collection_filter(prefix, ps) {
            Err(_) => {
                assert(false);
            },
            Ok(acc) => {
                let f = fs.last();
                match query_lookup(ps, f.name) {
                    None => {
                        lemma_filter_names_declared(prefix, ps, acc, k);
                        let j = choose|j: int|
                            0 <= j < prefix.len() && (#[trigger] prefix[j]).name == k;
                        assert(fs[j].name == k);
                    },
                    Some(v) => {
                        if f.is_num {
                            match parse_u32_spec(v) {
                                Some(nn) => {
                                    lemma_pairs_set_keys(acc, f.name, ValModel::Num(nn), k);
                                },
                                None => {},
                            }
                        } else if f.is_bool {
                            match parse_bool_spec(v) {
                                Some(b) => {
                                    lemma_pairs_set_keys(acc, f.name, ValModel::Bool(b), k);
                                },
                                None => {},
                            }
                        } else {
                            lemma_pairs_set_keys(acc, f.name, ValModel::Text(v), k);
                        }
                        if k == f.name {
                            assert((fs[fs.len() - 1]).name == k);
                        } else {
                            lemma_filter_names_declared(prefix, ps, acc, k);
                            let j = choose|j: int|
                                0 <= j < prefix.len() && (#[trigger] prefix[j]).name == k;
                            assert(fs[j].name == k);
                        }
                    },
                }
            },
        }
    }
}

/// When no declared field occurs among the query parameters, the built
/// filter is empty: the request constrains nothing.
pub proof fn lemma_no_recognized_params(fs: Seq<FieldModel>, ps: QueryPairsModel)
    requires
        forall|j: int| 0 <= j < fs.len() ==> query_lookup(ps, (#[trigger] fs[j]).name) is None,
    ensures
        collection_filter(fs, ps) == Ok::<PairsModel, FilterErrorModel>(
            Seq::<EntryModel>::empty(),
        ),
    decreases fs.len(),
{
    if fs.len() != 0 {
        lemma_no_recognized_params(fs.drop_last(), ps);
    }
}

/// The empty filter matches every stored record: retrieval with it returns
/// all stored items, in storage order.
pub proof fn lemma_empty_filter_matches_all(rows: Seq<PairsModel>)
    ensures
        matching(rows, Seq::<EntryModel>::empty()) == rows,
    decreases rows.len(),
{
    if rows.len() != 0 {
        lemma_empty_filter_matches_all(rows.drop_last());
        assert(matching(rows, Seq::<EntryModel>::empty()) =~= rows);
    } else {
        assert(matching(rows, Seq::<EntryModel>::empty()) =~= rows);
    }
}

/// A numeric field whose present query value is not a decimal number makes
/// the whole filter construction fail: the request is rejected before any
/// store access.
pub proof fn lemma_bad_numeric_rejected(fs: Seq<FieldModel>, ps: QueryPairsModel, j: int)
    requires
        0 <= j < fs.len(),
        fs[j].is_num,
        query_lookup(ps, fs[j].name) is Some,
        parse_u32_spec(query_lookup(ps, fs[j].name).unwrap()) is None,
    ensures
        collection_filter(fs, ps) is Err,
    decreases fs.len(),
{
    let prefix = fs.drop_last();
    if j < fs.len() - 1 {
        lemma_bad_numeric_rejected(prefix, ps, j);
    }
}

/// Round trip: inserting a record under a fresh identifier and then
/// retrieving by that identifier yields exactly the inserted record, whose
/// fields apart from the identifier are those of the record posted.
pub proof fn lemma_insert_then_retrieve(rows: Seq<PairsModel>, x: PairsModel, n: u32)
    requires
        forall|i: int| 0 <= i < rows.len() ==> record_id(#[trigger] rows[i]) != Some(n),
    ensures
        first_matching(rows.push(with_id(x, Some(n))), identifier_filter_model(n)) == Some(
            with_id(x, Some(n)),
        ),
        without_id(with_id(x, Some(n))) == without_id(x),
    decreases rows.len(),
{
    let item = with_id(x, Some(n));
    let f = identifier_filter_model(n);
    lemma_pairs_set_lookup(x, id_field(), ValModel::Num(n));
    assert(record_id(item) == Some(n));
    assert forall|i: int| 0 <= i < f.len() implies #[trigger] pairs_lookup(item, f[i].0) == Some(
        f[i].1,
    ) by {
        assert(f[i] == (id_field(), ValModel::Num(n)));
    }
    assert(matches_filter(item, f));
    assert forall|i: int| 0 <= i < rows.len() implies !matches_filter(#[trigger] rows[i], f) by {
        if matches_filter(rows[i], f) {
            assert(pairs_lookup(rows[i], f[0].0) == Some(f[0].1));
            assert(record_id(rows[i]) == Some(n));
        }
    }
    let extended = rows.push(item);
    assert forall|i: int| 0 <= i < rows.len() implies !matches_filter(#[trigger] extended[i], f) by {
        assert(extended[i] == rows[i]);
    }
    crate::filter::lemma_first_matching_at(extended, f, rows.len() as int);
    lemma_pairs_set_remove(x, id_field(), ValModel::Num(n));
}

} // verus!
