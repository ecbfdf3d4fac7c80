//! The database port: the abstract contract a document store satisfies, a
//! verified in-memory adapter, and the monotonic identifier generator used
//! for inserts.

use vstd::prelude::*;

use crate::filter::FieldFilter;
use crate::filter::Filter;
use crate::filter::first_matching;
use crate::filter::lemma_first_matching_at;
use crate::filter::lemma_first_matching_none;
use crate::filter::matching;
use crate::filter::matches_filter;
use crate::filter::record_matches;
use crate::resource::Record;
use crate::resource::record_id;
use crate::resource::records_view;
use crate::value::PairsModel;

verus! {

/// Why a store operation failed: the backend reported an error, or a
/// retrieved document could not be decoded into the resource form; both are
/// one error family, and the text says which occurred.
#[derive(Debug)]
pub enum StoreError {
    Backend(String),
}

/// The contract a document store satisfies: retrieval returns exactly the
/// stored records matching the filter, in storage order, and insertion
/// appends. Any operation may instead fail with a [`StoreError`]; a failed
/// retrieval promises nothing about the store's contents.
pub trait Database {
    /// The records stored under a collection name, in insertion order.
    spec fn table(&self, name: Seq<char>) -> Seq<PairsModel>;

    /// The first stored record matching the filter, or absence; absence is
    /// not an error.
    fn retrieve_one(&self, table_name: String, filter: FieldFilter) -> (r: Result<
        Option<Record>,
        StoreError,
    >)
        ensures
            match r {
                Ok(Some(rec)) => first_matching(self.table(table_name@), filter@) == Some(rec@),
                Ok(None) => first_matching(self.table(table_name@), filter@) is None,
                Err(_) => true,
            },
    ;

    /// All stored records matching the filter, in storage order; an empty
    /// list is a valid result.
    fn retrieve_many(&self, table_name: String, filter: FieldFilter) -> (r: Result<
        Vec<Record>,
        StoreError,
    >)
        ensures
            match r {
                Ok(rows) => records_view(rows@) == matching(self.table(table_name@), filter@),
                Err(_) => true,
            },
    ;

    /// Appends one record to the collection and returns its identifier.
    fn insert_one(&mut self, table_name: String, item: Record) -> (r: Result<u32, StoreError>)
        ensures
            match r {
                Ok(id) => {
                    &&& record_id(item@) == Some(id)
                    &&& final(self).table(table_name@) == old(self).table(table_name@).push(item@)
                    &&& forall|n: Seq<char>|
                        n != table_name@ ==> #[trigger] final(self).table(n) == old(self).table(n)
                },
                Err(_) => true,
            },
    ;

    /// Appends the records to the collection and returns their identifiers.
    fn insert_many(&mut self, table_name: String, items: Vec<Record>) -> (r: Result<
        Vec<u32>,
        StoreError,
    >)
        ensures
            match r {
                Ok(ids) => {
                    &&& ids@.len() == items@.len()
                    &&& forall|i: int|
                        0 <= i < items@.len() ==> record_id(#[trigger] items@[i]@) == Some(ids@[i])
                    &&& final(self).table(table_name@) == old(self).table(table_name@)
                        + records_view(items@)
                    &&& forall|n: Seq<char>|
                        n != table_name@ ==> #[trigger] final(self).table(n) == old(self).table(n)
                },
                Err(_) => true,
            },
    ;
}

/// One named collection of the in-memory store.
struct StoredTable {
    name: String,
    rows: Vec<Record>,
}

/// The records stored under `name`: those of the first table so named, or
/// none when no table carries the name.
spec fn table_rows(ts: Seq<StoredTable>, name: Seq<char>) -> Seq<PairsModel>
    decreases ts.len(),
{
    if ts.len() == 0 {
        Seq::empty()
    } else if ts[0].name@ == name {
        records_view(ts[0].rows@)
    } else {
        table_rows(ts.drop_first(), name)
    }
}

/// When table `i` is the first one named `nm`, the stored records under
/// `nm` are its rows.
proof fn lemma_table_rows_at(ts: Seq<StoredTable>, nm: Seq<char>, i: int)
    requires
        0 <= i < ts.len(),
        ts[i].name@ == nm,
        forall|j: int| 0 <= j < i ==> ts[j].name@ != nm,
    ensures
        table_rows(ts, nm) == records_view(ts[i].rows@),
    decreases i,
{
    if i > 0 {
        lemma_table_rows_at(ts.drop_first(), nm, i - 1);
    }
}

/// When no table is named `nm`, nothing is stored under `nm`.
proof fn lemma_table_rows_absent(ts: Seq<StoredTable>, nm: Seq<char>)
    requires
        forall|j: int| 0 <= j < ts.len() ==> ts[j].name@ != nm,
    ensures
        table_rows(ts, nm) == Seq::<PairsModel>::empty(),
    decreases ts.len(),
{
    if ts.len() != 0 {
        lemma_table_rows_absent(ts.drop_first(), nm);
    }
}

/// Replacing the first table named `nm` by another table of the same name
/// changes the records under `nm` to the new rows and leaves every other
/// name untouched.
proof fn lemma_table_rows_update(ts: Seq<StoredTable>, nm: Seq<char>, i: int, t2: StoredTable)
    requires
        0 <= i < ts.len(),
        ts[i].name@ == nm,
        forall|j: int| 0 <= j < i ==> ts[j].name@ != nm,
        t2.name@ == nm,
    ensures
        table_rows(ts.update(i, t2), nm) == records_view(t2.rows@),
        forall|n: Seq<char>|
            n != nm ==> #[trigger] table_rows(ts.update(i, t2), n) == table_rows(ts, n),
    decreases i,
{
    let ts2 = ts.update(i, t2);
    if i == 0 {
        assert(ts2[0] == t2);
        assert(ts2.drop_first() =~= ts.drop_first());
        assert forall|n: Seq<char>| n != nm implies #[trigger] table_rows(ts2, n) == table_rows(
            ts,
            n,
        ) by {
            assert(table_rows(ts2, n) == table_rows(ts2.drop_first(), n));
            assert(table_rows(ts, n) == table_rows(ts.drop_first(), n));
        }
    } else {
        lemma_table_rows_update(ts.drop_first(), nm, i - 1, t2);
        assert(ts2.drop_first() =~= ts.drop_first().update(i - 1, t2));
        assert(ts2[0] == ts[0]);
        assert forall|n: Seq<char>| n != nm implies #[trigger] table_rows(ts2, n) == table_rows(
            ts,
            n,
        ) by {
            if ts[0].name@ != n {
                assert(table_rows(ts2, n) == table_rows(ts2.drop_first(), n));
                assert(table_rows(ts, n) == table_rows(ts.drop_first(), n));
                assert(table_rows(ts.drop_first().update(i - 1, t2), n) == table_rows(
                    ts.drop_first(),
                    n,
                ));
            }
        }
    }
}

/// Appending a table under a fresh name stores its rows under that name and
/// leaves every other name untouched.
proof fn lemma_table_rows_push(ts: Seq<StoredTable>, nm: Seq<char>, t: StoredTable)
    requires
        forall|j: int| 0 <= j < ts.len() ==> ts[j].name@ != nm,
        t.name@ == nm,
    ensures
        table_rows(ts.push(t), nm) == records_view(t.rows@),
        forall|n: Seq<char>| n != nm ==> #[trigger] table_rows(ts.push(t), n) == table_rows(ts, n),
    decreases ts.len(),
{
    let ts2 = ts.push(t);
    if ts.len() == 0 {
        assert(ts2[0] == t);
        assert(ts2.drop_first() =~= Seq::<StoredTable>::empty());
        assert(table_rows(ts2, nm) == records_view(t.rows@));
        assert forall|n: Seq<char>| n != nm implies #[trigger] table_rows(ts2, n) == table_rows(
            ts,
            n,
        ) by {
            assert(table_rows(ts2, n) == table_rows(ts2.drop_first(), n));
            assert(table_rows(ts2.drop_first(), n) == Seq::<PairsModel>::empty());
            assert(table_rows(ts, n) == Seq::<PairsModel>::empty());
        }
    } else {
        lemma_table_rows_push(ts.drop_first(), nm, t);
        assert(ts2.drop_first() =~= ts.drop_first().push(t));
        assert(ts2[0] == ts[0]);
        assert forall|n: Seq<char>| n != nm implies #[trigger] table_rows(ts2, n) == table_rows(
            ts,
            n,
        ) by {
            if ts[0].name@ != n {
                assert(table_rows(ts2, n) == table_rows(ts2.drop_first(), n));
                assert(table_rows(ts, n) == table_rows(ts.drop_first(), n));
                assert(table_rows(ts.drop_first().push(t), n) == table_rows(ts.drop_first(), n));
            }
        }
    }
}

/// A verified in-memory document store: collections are kept in the order
/// first written to, records in insertion order. It never reports a
/// [`StoreError`] on retrieval, and rejects only inserts whose record
/// carries no numeric identifier.
pub struct MemoryDb {
    tables: Vec<StoredTable>,
}

impl MemoryDb {
    /// An empty store: nothing under any collection name.
    pub fn new() -> (r: MemoryDb)
        ensures
            forall|n: Seq<char>| #[trigger] r.table(n) == Seq::<PairsModel>::empty(),
    {
        let r = MemoryDb { tables: Vec::new() };
        proof {
            assert forall|n: Seq<char>| #[trigger] r.table(n) == Seq::<PairsModel>::empty() by {
                lemma_table_rows_absent(r.tables@, n);
            }
        }
        r
    }

    /// Appends `item` to the collection named `table_name`, creating the
    /// collection on first use.
    fn push_row(&mut self, table_name: &String, item: Record)
        ensures
            final(self).table(table_name@) == old(self).table(table_name@).push(item@),
            forall|n: Seq<char>|
                n != table_name@ ==> #[trigger] final(self).table(n) == old(self).table(n),
    {
        let ghost old_tables = self.tables@;
        match self.find_table(table_name) {
            Some(t) => {
                let ghost old_rows = self.tables@[t as int].rows@;
                let slot = vstd::std_specs::vec::vec_index_mut(&mut self.tables, t);
                slot.rows.push(item);
                proof {
                    let t2 = self.tables@[t as int];
                    assert(t2.rows@ =~= old_rows.push(item));
                    assert(self.tables@ =~= old_tables.update(t as int, t2));
                    lemma_table_rows_update(old_tables, table_name@, t as int, t2);
                    assert(records_view(t2.rows@) =~= records_view(old_rows).push(item@));
                }
            },
            None => {
                let mut rows: Vec<Record> = Vec::new();
                rows.push(item);
                let fresh = StoredTable { name: table_name.clone(), rows };
                self.tables.push(fresh);
                proof {
                    let t2 = self.tables@.last();
                    assert(self.tables@ =~= old_tables.push(t2));
                    lemma_table_rows_push(old_tables, table_name@, t2);
                    assert(records_view(t2.rows@) =~= Seq::<PairsModel>::empty().push(item@));
                }
            },
        }
    }

    /// The index of the first table named `name`, if any.
    fn find_table(&self, name: &String) -> (r: Option<usize>)
        ensures
            match r {
                Some(i) => {
                    &&& 0 <= i < self.tables@.len()
                    &&& self.tables@[i as int].name@ == name@
                    &&& forall|j: int| 0 <= j < i ==> self.tables@[j].name@ != name@
                    &&& self.table(name@) == records_view(self.tables@[i as int].rows@)
                },
                None => {
                    &&& forall|j: int| 0 <= j < self.tables@.len() ==> self.tables@[j].name@ != name@
                    &&& self.table(name@) == Seq::<PairsModel>::empty()
                },
            },
    {
        let mut i: usize = 0;
        while i < self.tables.len()
            invariant
                0 <= i <= self.tables@.len(),
                forall|j: int| 0 <= j < i ==> self.tables@[j].name@ != name@,
            decreases self.tables.len() - i,
        {
            if self.tables[i].name == *name {
                proof {
                    lemma_table_rows_at(self.tables@, name@, i as int);
                }
                return Some(i);
            }
            i = i + 1;
        }
        proof {
            lemma_table_rows_absent(self.tables@, name@);
        }
        None
    }
}

impl Database for MemoryDb {
    closed spec fn table(&self, name: Seq<char>) -> Seq<PairsModel> {
        table_rows(self.tables@, name)
    }

    /// Retrieval from memory never fails.
    fn retrieve_one(&self, table_name: String, filter: FieldFilter) -> (r: Result<
        Option<Record>,
        StoreError,
    >)
        ensures
            r is Ok,
    {
        match self.find_table(&table_name) {
            None => {
                proof {
                    lemma_first_matching_none(self.table(table_name@), filter@);
                }
                Ok(None)
            },
            Some(t) => {
                let rows = &self.tables[t].rows;
                let ghost models = self.table(table_name@);
                let mut i: usize = 0;
                while i < rows.len()
                    invariant
                        0 <= i <= rows@.len(),
                        models == self.table(table_name@),
                        models == records_view(rows@),
                        models.len() == rows@.len(),
                        forall|j: int| 0 <= j < i ==> !matches_filter(#[trigger] models[j], filter@),
                    decreases rows.len() - i,
                {
                    proof {
                        assert(models[i as int] == rows@[i as int]@);
                    }
                    if record_matches(&rows[i], &filter) {
                        proof {
                            lemma_first_matching_at(models, filter@, i as int);
                        }
                        return Ok(Some(rows[i].duplicate()));
                    }
                    i = i + 1;
                }
                proof {
                    lemma_first_matching_none(models, filter@);
                }
                Ok(None)
            },
        }
    }

    /// Retrieval from memory never fails.
    fn retrieve_many(&self, table_name: String, filter: FieldFilter) -> (r: Result<
        Vec<Record>,
        StoreError,
    >)
        ensures
            r is Ok,
    {
        let ghost models = self.table(table_name@);
        match self.find_table(&table_name) {
            None => {
                let out: Vec<Record> = Vec::new();
                proof {
                    assert(records_view(out@) =~= matching(models, filter@));
                }
                Ok(out)
            },
            Some(t) => {
                let rows = &self.tables[t].rows;
                let mut out: Vec<Record> = Vec::new();
                let mut i: usize = 0;
                proof {
                    assert(models.take(0) =~= Seq::<PairsModel>::empty());
                    assert(records_view(out@) =~= matching(models.take(0), filter@));
                }
                while i < rows.len()
                    invariant
                        0 <= i <= rows@.len(),
                        models == self.table(table_name@),
                        models == records_view(rows@),
                        models.len() == rows@.len(),
                        records_view(out@) == matching(models.take(i as int), filter@),
                    decreases rows.len() - i,
                {
                    proof {
                        assert(models.take(i as int + 1).drop_last() =~= models.take(i as int));
                        assert(models.take(i as int + 1).last() == models[i as int]);
                    }
                    if record_matches(&rows[i], &filter) {
                        let copied = rows[i].duplicate();
                        out.push(copied);
                        proof {
                            assert(records_view(out@) =~= matching(models.take(i as int + 1), filter@));
                        }
                    } else {
                        proof {
                            assert(records_view(out@) =~= matching(models.take(i as int + 1), filter@));
                        }
                    }
                    i = i + 1;
                }
                proof {
                    assert(models.take(rows@.len() as int) =~= models);
                }
                Ok(out)
            },
        }
    }

    /// Insertion into memory succeeds exactly when the record carries a
    /// numeric identifier, and a refused insert changes nothing.
    fn insert_one(&mut self, table_name: String, item: Record) -> (r: Result<u32, StoreError>)
        ensures
            r is Ok <==> record_id(item@) is Some,
            r is Err ==> *final(self) == *old(self),
    {
        let id = match item.get_id() {
            Some(id) => id,
            None => {
                return Err(StoreError::Backend("record carries no numeric identifier".to_owned()));
            },
        };
        self.push_row(&table_name, item);
        Ok(id)
    }

    /// Insertion into memory succeeds exactly when every record carries a
    /// numeric identifier, and a refused insert changes nothing.
    fn insert_many(&mut self, table_name: String, items: Vec<Record>) -> (r: Result<
        Vec<u32>,
        StoreError,
    >)
        ensures
            r is Ok <==> (forall|i: int|
                0 <= i < items@.len() ==> record_id(#[trigger] items@[i]@) is Some),
            r is Err ==> *final(self) == *old(self),
    {
        let ghost t0 = *self;
        let mut ids: Vec<u32> = Vec::new();
        let mut i: usize = 0;
        while i < items.len()
            invariant
                0 <= i <= items@.len(),
                ids@.len() == i,
                forall|j: int|
                    0 <= j < i ==> record_id(#[trigger] items@[j]@) == Some(ids@[j]),
            decreases items.len() - i,
        {
            match items[i].get_id() {
                Some(id) => {
                    ids.push(id);
                },
                None => {
                    return Err(
                        StoreError::Backend("record carries no numeric identifier".to_owned()),
                    );
                },
            }
            i = i + 1;
        }
        let mut i: usize = 0;
        proof {
            assert(self.table(table_name@) =~= t0.table(table_name@) + records_view(
                items@.take(0),
            ));
        }
        while i < items.len()
            invariant
                0 <= i <= items@.len(),
                ids@.len() == items@.len(),
                forall|j: int|
                    0 <= j < items@.len() ==> record_id(#[trigger] items@[j]@) == Some(ids@[j]),
                self.table(table_name@) == t0.table(table_name@) + records_view(
                    items@.take(i as int),
                ),
                forall|n: Seq<char>|
                    n != table_name@ ==> #[trigger] self.table(n) == t0.table(n),
            decreases items.len() - i,
        {
            let item = items[i].duplicate();
            self.push_row(&table_name, item);
            proof {
                assert(items@.take(i as int + 1).drop_last() =~= items@.take(i as int));
                assert(items@.take(i as int + 1).last() == items@[i as int]);
                assert(self.table(table_name@) =~= t0.table(table_name@) + records_view(
                    items@.take(i as int + 1),
                ));
            }
            i = i + 1;
        }
        proof {
            assert(items@.take(items@.len() as int) =~= items@);
        }
        Ok(ids)
    }
}

/// A monotonic identifier source for inserts: each drawn identifier is
/// strictly greater than every one drawn before, so identifiers never
/// collide.
pub struct IdGen {
    next: u32,
}

impl IdGen {
    /// The identifier the next draw returns.
    pub closed spec fn next_id(&self) -> u32 {
        self.next
    }

    /// A source whose first identifier is `first`.
    pub fn starting_at(first: u32) -> (r: IdGen)
        ensures
            r.next_id() == first,
    {
        IdGen { next: first }
    }

    /// Draws a fresh identifier and advances past it.
    pub fn fresh(&mut self) -> (r: u32)
        requires
            old(self).next_id() < u32::MAX,
        ensures
            r == old(self).next_id(),
            final(self).next_id() == old(self).next_id() + 1,
    {
        let id = self.next;
        self.next = self.next + 1;
        id
    }
}

} // verus!
