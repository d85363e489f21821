//! An ordered store of records under byte keys, in three families: `secrets`
//! and `data`, whose records can be overwritten, and `log`, which is
//! write-once.
//!
//! A family is a `Table`: its rows stand in strict lexicographic order of
//! their keys, so "the record under the largest key with this prefix" and "the
//! records from this key on" are read off the order.

use vstd::prelude::*;
use vstd::slice::slice_to_vec;
use crate::bytes::{
    has_prefix, key_order, lemma_lex_asymmetric, lemma_lex_le_lt, lemma_lex_total,
    lemma_lex_transitive, lex_le, lex_lt, starts_with, KeyOrder,
};

verus! {

/// What a store can report. The in-memory families only ever refuse a second
/// write to a log key; the other kinds are what a durable engine and a record
/// codec report, carried as text.
#[derive(Debug, PartialEq, Eq)]
pub enum KvStoreError {
    KeysetNotFound(String),
    RocksDbError(String),
    DecodeError(String),
    WriteOnce,
}

/// One record and the key it stands under.
pub struct Entry<V> {
    pub key: Vec<u8>,
    pub value: V,
}

/// The rows that a vector of entries stands for: key bytes and record.
pub open spec fn rows_of<V>(entries: Seq<Entry<V>>) -> Seq<(Seq<u8>, V)> {
    entries.map_values(|e: Entry<V>| (e.key@, e.value))
}

/// The rows stand in strictly ascending order of their keys.
pub open spec fn ordered<V>(rows: Seq<(Seq<u8>, V)>) -> bool {
    forall|i: int, j: int|
        #![trigger rows[i], rows[j]]
        0 <= i < j < rows.len() ==> lex_lt(rows[i].0, rows[j].0)
}

/// `p` is where `key` is, or where it would have to go: all rows before `p`
/// have smaller keys and no row from `p` on has.
pub open spec fn is_slot<V>(rows: Seq<(Seq<u8>, V)>, key: Seq<u8>, p: int) -> bool {
    &&& 0 <= p <= rows.len()
    &&& forall|i: int| #![trigger rows[i]] 0 <= i < p ==> lex_lt(rows[i].0, key)
    &&& forall|i: int| #![trigger rows[i]] p <= i < rows.len() ==> lex_le(key, rows[i].0)
}

/// The slot of `key` in `rows`.
pub open spec fn slot<V>(rows: Seq<(Seq<u8>, V)>, key: Seq<u8>) -> int {
    choose|p: int| is_slot(rows, key, p)
}

/// `key` has a row.
pub open spec fn has_key<V>(rows: Seq<(Seq<u8>, V)>, key: Seq<u8>) -> bool {
    slot(rows, key) < rows.len() && rows[slot(rows, key)].0 == key
}

/// The record under `key`, if there is one.
pub open spec fn lookup<V>(rows: Seq<(Seq<u8>, V)>, key: Seq<u8>) -> Option<V> {
    if has_key(rows, key) {
        Some(rows[slot(rows, key)].1)
    } else {
        None
    }
}

/// The rows after `value` was put under `key`: the row of `key` replaced, or a
/// new row at the slot of `key`.
pub open spec fn put_rows<V>(rows: Seq<(Seq<u8>, V)>, key: Seq<u8>, value: V) -> Seq<
    (Seq<u8>, V),
> {
    if has_key(rows, key) {
        rows.update(slot(rows, key), (key, value))
    } else {
        rows.insert(slot(rows, key), (key, value))
    }
}

/// The rows whose key begins with `prefix`, in key order.
pub open spec fn rows_with_prefix<V>(rows: Seq<(Seq<u8>, V)>, prefix: Seq<u8>) -> Seq<
    (Seq<u8>, V),
> {
    rows.filter(|r: (Seq<u8>, V)| has_prefix(r.0, prefix))
}

/// The rows whose key begins with `prefix` and is not before `start`, in key order.
pub open spec fn rows_from<V>(rows: Seq<(Seq<u8>, V)>, prefix: Seq<u8>, start: Seq<u8>) -> Seq<
    (Seq<u8>, V),
> {
    rows.filter(|r: (Seq<u8>, V)| has_prefix(r.0, prefix) && lex_le(start, r.0))
}

/// The records of some rows.
pub open spec fn values_of<V>(rows: Seq<(Seq<u8>, V)>) -> Seq<V> {
    rows.map_values(|r: (Seq<u8>, V)| r.1)
}

/// The first `n` items of `s`, or all of them where it has fewer.
pub open spec fn first_n<A>(s: Seq<A>, n: int) -> Seq<A> {
    if n <= 0 {
        Seq::empty()
    } else if n < s.len() {
        s.subrange(0, n)
    } else {
        s
    }
}

/// What a vector of borrowed records holds.
pub open spec fn borrowed<V>(out: Seq<&V>) -> Seq<V> {
    out.map_values(|r: &V| *r)
}

/// In ordered rows a key has one slot only.
pub proof fn lemma_slot_unique<V>(rows: Seq<(Seq<u8>, V)>, key: Seq<u8>, p: int)
    requires
        is_slot(rows, key, p),
    ensures
        slot(rows, key) == p,
{
    let q = slot(rows, key);
    if q < p {
        assert(lex_lt(rows[q].0, key));
        assert(lex_le(key, rows[q].0));
        lemma_lex_asymmetric(rows[q].0, key);
    } else if p < q {
        assert(lex_lt(rows[p].0, key));
        assert(lex_le(key, rows[p].0));
        lemma_lex_asymmetric(rows[p].0, key);
    }
}

/// Every key has a slot in ordered rows.
pub proof fn lemma_slot_exists<V>(rows: Seq<(Seq<u8>, V)>, key: Seq<u8>)
    requires
        ordered(rows),
    ensures
        is_slot(rows, key, slot(rows, key)),
    decreases rows.len(),
{
    if rows.len() == 0 {
        assert(is_slot(rows, key, 0));
    } else {
        let head = rows.drop_last();
        assert forall|i: int, j: int| #![trigger head[i], head[j]] 0 <= i < j < head.len() implies lex_lt(
            head[i].0,
            head[j].0,
        ) by {
            assert(head[i] == rows[i]);
            assert(head[j] == rows[j]);
        }
        lemma_slot_exists(head, key);
        let p = slot(head, key);
        let last = rows.last();
        if p < head.len() {
            assert forall|i: int| #![trigger rows[i]] p <= i < rows.len() implies lex_le(
                key,
                rows[i].0,
            ) by {
                if i < head.len() {
                    assert(head[i] == rows[i]);
                } else {
                    assert(head[p] == rows[p]);
                    assert(lex_le(key, head[p].0));
                    assert(lex_lt(rows[p].0, rows[i].0));
                    lemma_lex_le_lt(key, rows[p].0, rows[i].0);
                }
            }
            assert forall|i: int| #![trigger rows[i]] 0 <= i < p implies lex_lt(rows[i].0, key) by {
                assert(head[i] == rows[i]);
            }
            assert(is_slot(rows, key, p));
        } else {
            assert forall|i: int| #![trigger rows[i]] 0 <= i < head.len() implies lex_lt(
                rows[i].0,
                key,
            ) by {
                assert(head[i] == rows[i]);
            }
            if lex_lt(last.0, key) {
                assert(is_slot(rows, key, rows.len() as int));
            } else {
                assert(lex_le(key, last.0)) by {
                    lemma_lex_total(key, last.0);
                }
                assert(is_slot(rows, key, head.len() as int));
            }
        }
    }
}

/// A key is found exactly where a row holds it.
pub proof fn lemma_lookup<V>(rows: Seq<(Seq<u8>, V)>, key: Seq<u8>, i: int)
    requires
        ordered(rows),
        0 <= i < rows.len(),
        rows[i].0 == key,
    ensures
        slot(rows, key) == i,
        has_key(rows, key),
        lookup(rows, key) == Some(rows[i].1),
{
    assert forall|j: int| #![trigger rows[j]] 0 <= j < i implies lex_lt(rows[j].0, key) by {
        assert(lex_lt(rows[j].0, rows[i].0));
    }
    assert forall|j: int| #![trigger rows[j]] i <= j < rows.len() implies lex_le(key, rows[j].0) by {
        if i < j {
            assert(lex_lt(rows[i].0, rows[j].0));
        }
    }
    assert(is_slot(rows, key, i));
    lemma_slot_unique(rows, key, i);
}

/// A key without a row is not found.
pub proof fn lemma_lookup_absent<V>(rows: Seq<(Seq<u8>, V)>, key: Seq<u8>)
    requires
        ordered(rows),
        forall|i: int| #![trigger rows[i]] 0 <= i < rows.len() ==> rows[i].0 != key,
    ensures
        !has_key(rows, key),
        lookup(rows, key) == None::<V>,
{
    lemma_slot_exists(rows, key);
    let p = slot(rows, key);
    if p < rows.len() {
        assert(rows[p].0 != key);
    }
}

/// Putting a record keeps the rows ordered, makes the key read as the record
/// and leaves every other key as it was.
pub proof fn lemma_put_rows<V>(rows: Seq<(Seq<u8>, V)>, key: Seq<u8>, value: V)
    requires
        ordered(rows),
    ensures
        ordered(put_rows(rows, key, value)),
        lookup(put_rows(rows, key, value), key) == Some(value),
        forall|k: Seq<u8>|
            k != key ==> #[trigger] lookup(put_rows(rows, key, value), k) == lookup(rows, k),
        has_key(rows, key) ==> put_rows(rows, key, value).len() == rows.len(),
        !has_key(rows, key) ==> put_rows(rows, key, value).len() == rows.len() + 1,
{
    lemma_slot_exists(rows, key);
    let p = slot(rows, key);
    let after = put_rows(rows, key, value);
    if has_key(rows, key) {
        assert forall|i: int, j: int| #![trigger after[i], after[j]] 0 <= i < j < after.len() implies lex_lt(
            after[i].0,
            after[j].0,
        ) by {
            assert(lex_lt(rows[i].0, rows[j].0));
        }
        lemma_lookup(after, key, p);
        assert forall|k: Seq<u8>| k != key implies #[trigger] lookup(after, k) == lookup(
            rows,
            k,
        ) by {
            lemma_slot_exists(rows, k);
            let q = slot(rows, k);
            assert forall|i: int| #![trigger after[i]] 0 <= i < q implies lex_lt(after[i].0, k) by {
                assert(lex_lt(rows[i].0, k));
            }
            assert forall|i: int| #![trigger after[i]] q <= i < after.len() implies lex_le(
                k,
                after[i].0,
            ) by {
                assert(lex_le(k, rows[i].0));
            }
            assert(is_slot(after, k, q));
            lemma_slot_unique(after, k, q);
        }
    } else {
        assert forall|i: int| #![trigger rows[i]] p <= i < rows.len() implies lex_lt(
            key,
            rows[i].0,
        ) by {
            assert(lex_le(key, rows[i].0));
            if rows[i].0 == key {
                lemma_lookup(rows, key, i);
            }
        }
        assert forall|i: int, j: int| #![trigger after[i], after[j]] 0 <= i < j < after.len() implies lex_lt(
            after[i].0,
            after[j].0,
        ) by {
            if j < p {
                assert(lex_lt(rows[i].0, rows[j].0));
            } else if j == p {
                assert(lex_lt(rows[i].0, key));
            } else if i < p {
                assert(lex_lt(rows[i].0, key));
                assert(lex_lt(key, rows[j - 1].0));
                lemma_lex_transitive(rows[i].0, key, rows[j - 1].0);
            } else if i == p {
                assert(lex_lt(key, rows[j - 1].0));
            } else {
                assert(lex_lt(rows[i - 1].0, rows[j - 1].0));
            }
        }
        lemma_lookup(after, key, p);
        assert forall|k: Seq<u8>| k != key implies #[trigger] lookup(after, k) == lookup(
            rows,
            k,
        ) by {
            lemma_slot_exists(rows, k);
            let q = slot(rows, k);
            if has_key(rows, k) {
                if q < p {
                    assert(after[q] == rows[q]);
                    lemma_lookup(after, k, q);
                } else {
                    assert(after[q + 1] == rows[q]);
                    lemma_lookup(after, k, q + 1);
                }
            } else {
                assert forall|i: int| #![trigger after[i]] 0 <= i < after.len() implies after[i].0
                    != k by {
                    if i < p {
                        assert(after[i] == rows[i]);
                        if rows[i].0 == k {
                            lemma_lookup(rows, k, i);
                        }
                    } else if i > p {
                        assert(after[i] == rows[i - 1]);
                        if rows[i - 1].0 == k {
                            lemma_lookup(rows, k, i - 1);
                        }
                    }
                }
                lemma_lookup_absent(after, k);
            }
        }
    }
}

/// A key above every row goes to the end.
pub proof fn lemma_put_rows_at_end<V>(rows: Seq<(Seq<u8>, V)>, key: Seq<u8>, value: V)
    requires
        ordered(rows),
        forall|i: int| #![trigger rows[i]] 0 <= i < rows.len() ==> lex_lt(rows[i].0, key),
    ensures
        !has_key(rows, key),
        put_rows(rows, key, value) == rows.push((key, value)),
{
    assert(is_slot(rows, key, rows.len() as int));
    lemma_slot_unique(rows, key, rows.len() as int);
    assert(rows.insert(rows.len() as int, (key, value)) =~= rows.push((key, value)));
}

/// Filtering a sequence that grew by one item.
pub proof fn lemma_filter_push<A>(s: Seq<A>, x: A, pred: spec_fn(A) -> bool)
    ensures
        s.push(x).filter(pred) == if pred(x) {
            s.filter(pred).push(x)
        } else {
            s.filter(pred)
        },
{
    reveal(Seq::filter);
    assert(s.push(x).drop_last() =~= s);
}

/// One family of records: entries in strict key order.
pub struct Table<V> {
    entries: Vec<Entry<V>>,
}

impl<V> Table<V> {
    /// The rows of the table, in key order.
    pub closed spec fn rows(&self) -> Seq<(Seq<u8>, V)> {
        rows_of(self.entries@)
    }

    /// The rows stand in strict key order.
    pub open spec fn wf(&self) -> bool {
        ordered(self.rows())
    }

    /// The record under `key`, if there is one.
    pub open spec fn at(&self, key: Seq<u8>) -> Option<V> {
        lookup(self.rows(), key)
    }

    /// A table without rows.
    pub fn new() -> (t: Self)
        ensures
            t.wf(),
            t.rows() == Seq::<(Seq<u8>, V)>::empty(),
    {
        let t = Table { entries: Vec::new() };
        assert(t.rows() =~= Seq::<(Seq<u8>, V)>::empty());
        t
    }

    /// The number of rows.
    pub fn len(&self) -> (n: usize)
        ensures
            n == self.rows().len(),
    {
        self.entries.len()
    }

    /// Positions on the first row whose key is not before `key`.
    pub fn seek(&self, key: &[u8]) -> (p: usize)
        requires
            self.wf(),
        ensures
            is_slot(self.rows(), key@, p as int),
            p as int == slot(self.rows(), key@),
    {
        let mut i: usize = 0;
        while i < self.entries.len()
            invariant
                self.wf(),
                i <= self.entries.len(),
                forall|j: int|
                    #![trigger self.rows()[j]]
                    0 <= j < i ==> lex_lt(self.rows()[j].0, key@),
            ensures
                is_slot(self.rows(), key@, i as int),
            decreases self.entries.len() - i,
        {
            let order = key_order(self.entries[i].key.as_slice(), key);
            if order == KeyOrder::Before {
                i += 1;
            } else {
                proof {
                    let rows = self.rows();
                    assert(rows[i as int].0 == self.entries@[i as int].key@);
                    assert(lex_le(key@, rows[i as int].0));
                    assert forall|j: int| #![trigger rows[j]] i <= j < rows.len() implies lex_le(
                        key@,
                        rows[j].0,
                    ) by {
                        if i < j {
                            assert(lex_lt(rows[i as int].0, rows[j].0));
                            lemma_lex_le_lt(key@, rows[i as int].0, rows[j].0);
                        }
                    }
                }
                break ;
            }
        }
        proof {
            lemma_slot_unique(self.rows(), key@, i as int);
        }
        i
    }

    /// Reads the record under `key`.
    pub fn get(&self, key: &[u8]) -> (r: Option<&V>)
        requires
            self.wf(),
        ensures
            match r {
                Some(v) => self.at(key@) == Some(*v),
                None => self.at(key@).is_none(),
            },
    {
        let p = self.seek(key);
        if p < self.entries.len() {
            let order = key_order(self.entries[p].key.as_slice(), key);
            if order == KeyOrder::Same {
                return Some(&self.entries[p].value);
            }
        }
        None
    }

    /// Puts `value` under `key`, in place of what was there.
    pub fn put(&mut self, key: &[u8], value: V)
        requires
            old(self).wf(),
        ensures
            final(self).wf(),
            final(self).rows() == put_rows(old(self).rows(), key@, value),
    {
        let p = self.seek(key);
        let ghost before = self.rows();
        proof {
            lemma_put_rows(before, key@, value);
        }
        if p < self.entries.len() {
            let order = key_order(self.entries[p].key.as_slice(), key);
            if order == KeyOrder::Same {
                self.entries[p].value = value;
                assert(self.rows() =~= before.update(p as int, (key@, value)));
                return ;
            }
        }
        self.entries.insert(p, Entry { key: slice_to_vec(key), value });
        assert(self.rows() =~= before.insert(p as int, (key@, value)));
    }

    /// The record under the largest key that begins with `prefix`.
    pub fn collect_last_prefixed_value(&self, prefix: &[u8]) -> (r: Option<&V>)
        ensures
            match r {
                Some(v) => rows_with_prefix(self.rows(), prefix@).len() > 0 && *v
                    == rows_with_prefix(self.rows(), prefix@).last().1,
                None => rows_with_prefix(self.rows(), prefix@).len() == 0,
            },
    {
        let ghost pred = |r: (Seq<u8>, V)| has_prefix(r.0, prefix@);
        let mut last: Option<&V> = None;
        let mut i: usize = 0;
        assert(self.rows().subrange(0, 0) =~= Seq::<(Seq<u8>, V)>::empty());
        while i < self.entries.len()
            invariant
                i <= self.entries.len(),
                pred == |r: (Seq<u8>, V)| has_prefix(r.0, prefix@),
                match last {
                    Some(v) => self.rows().subrange(0, i as int).filter(pred).len() > 0 && *v
                        == self.rows().subrange(0, i as int).filter(pred).last().1,
                    None => self.rows().subrange(0, i as int).filter(pred).len() == 0,
                },
            decreases self.entries.len() - i,
        {
            proof {
                let rows = self.rows();
                assert(rows.subrange(0, i + 1) =~= rows.subrange(0, i as int).push(rows[i as int]));
                lemma_filter_push(rows.subrange(0, i as int), rows[i as int], pred);
            }
            if starts_with(self.entries[i].key.as_slice(), prefix) {
                last = Some(&self.entries[i].value);
            }
            i += 1;
        }
        assert(self.rows().subrange(0, i as int) =~= self.rows());
        last
    }

    /// The records whose key begins with `prefix`, in key order.
    pub fn collect_prefixed_entries(&self, prefix: &[u8]) -> (out: Vec<&V>)
        ensures
            borrowed(out@) == values_of(rows_with_prefix(self.rows(), prefix@)),
    {
        let ghost pred = |r: (Seq<u8>, V)| has_prefix(r.0, prefix@);
        let mut out: Vec<&V> = Vec::new();
        let mut i: usize = 0;
        assert(self.rows().subrange(0, 0) =~= Seq::<(Seq<u8>, V)>::empty());
        assert(borrowed(out@) =~= values_of(self.rows().subrange(0, 0).filter(pred)));
        while i < self.entries.len()
            invariant
                i <= self.entries.len(),
                pred == |r: (Seq<u8>, V)| has_prefix(r.0, prefix@),
                borrowed(out@) == values_of(self.rows().subrange(0, i as int).filter(pred)),
            decreases self.entries.len() - i,
        {
            let ghost kept = self.rows().subrange(0, i as int).filter(pred);
            let ghost held = out@;
            proof {
                let rows = self.rows();
                assert(rows.subrange(0, i + 1) =~= rows.subrange(0, i as int).push(rows[i as int]));
                lemma_filter_push(rows.subrange(0, i as int), rows[i as int], pred);
            }
            if starts_with(self.entries[i].key.as_slice(), prefix) {
                out.push(&self.entries[i].value);
                assert(borrowed(out@) =~= borrowed(held).push(self.rows()[i as int].1));
                assert(values_of(kept.push(self.rows()[i as int])) =~= values_of(kept).push(
                    self.rows()[i as int].1,
                ));
            }
            i += 1;
        }
        assert(self.rows().subrange(0, i as int) =~= self.rows());
        out
    }

    /// At most `size` records whose key begins with `prefix` and is not before
    /// `start`, the smallest keys first.
    pub fn collect_range(&self, prefix: &[u8], start: &[u8], size: usize) -> (out: Vec<&V>)
        ensures
            borrowed(out@) == first_n(
                values_of(rows_from(self.rows(), prefix@, start@)),
                size as int,
            ),
    {
        let ghost pred = |r: (Seq<u8>, V)| has_prefix(r.0, prefix@) && lex_le(start@, r.0);
        let mut out: Vec<&V> = Vec::new();
        let mut i: usize = 0;
        assert(self.rows().subrange(0, 0) =~= Seq::<(Seq<u8>, V)>::empty());
        assert(borrowed(out@) =~= values_of(self.rows().subrange(0, 0).filter(pred)));
        while i < self.entries.len() && out.len() < size
            invariant
                i <= self.entries.len(),
                out.len() <= size,
                pred == |r: (Seq<u8>, V)| has_prefix(r.0, prefix@) && lex_le(start@, r.0),
                borrowed(out@) == values_of(self.rows().subrange(0, i as int).filter(pred)),
            decreases self.entries.len() - i,
        {
            let ghost kept = self.rows().subrange(0, i as int).filter(pred);
            let ghost held = out@;
            proof {
                let rows = self.rows();
                assert(rows.subrange(0, i + 1) =~= rows.subrange(0, i as int).push(rows[i as int]));
                lemma_filter_push(rows.subrange(0, i as int), rows[i as int], pred);
            }
            let key = self.entries[i].key.as_slice();
            if starts_with(key, prefix) && key_order(start, key) != KeyOrder::After {
                out.push(&self.entries[i].value);
                assert(borrowed(out@) =~= borrowed(held).push(self.rows()[i as int].1));
                assert(values_of(kept.push(self.rows()[i as int])) =~= values_of(kept).push(
                    self.rows()[i as int].1,
                ));
            }
            i += 1;
        }
        proof {
            let rows = self.rows();
            let seen = rows.subrange(0, i as int);
            let rest = rows.subrange(i as int, rows.len() as int);
            assert(rows =~= seen + rest);
            Seq::filter_distributes_over_add(seen, rest, pred);
            let all = values_of(rows.filter(pred));
            assert(all =~= values_of(seen.filter(pred)) + values_of(rest.filter(pred)));
            if i < self.entries.len() {
                assert(out.len() == size);
                assert(all.subrange(0, size as int) =~= values_of(seen.filter(pred)));
            } else {
                assert(rest =~= Seq::<(Seq<u8>, V)>::empty());
                assert(all =~= values_of(seen.filter(pred)));
                assert(first_n(all, size as int) =~= all);
            }
        }
        out
    }
}

/// The three families of one store.
pub struct KvStore<V> {
    pub secrets: Table<V>,
    pub data: Table<V>,
    pub log: Table<V>,
}

impl<V> KvStore<V> {
    /// Every family stands in key order.
    pub open spec fn wf(&self) -> bool {
        &&& self.secrets.wf()
        &&& self.data.wf()
        &&& self.log.wf()
    }

    /// A store without records.
    pub fn new() -> (store: Self)
        ensures
            store.wf(),
            store.secrets.rows().len() == 0,
            store.data.rows().len() == 0,
            store.log.rows().len() == 0,
    {
        KvStore { secrets: Table::new(), data: Table::new(), log: Table::new() }
    }

    /// Reads the secret under `key`.
    pub fn fetch_secret(&self, key: &[u8]) -> (r: Option<&V>)
        requires
            self.wf(),
        ensures
            match r {
                Some(v) => self.secrets.at(key@) == Some(*v),
                None => self.secrets.at(key@).is_none(),
            },
    {
        self.secrets.get(key)
    }

    /// Puts a secret under `key`, in place of what was there.
    pub fn store_secret(&mut self, key: &[u8], value: V)
        requires
            old(self).wf(),
        ensures
            final(self).wf(),
            final(self).secrets.rows() == put_rows(old(self).secrets.rows(), key@, value),
            final(self).data == old(self).data,
            final(self).log == old(self).log,
    {
        self.secrets.put(key, value);
    }

    /// Reads the data record under `key`.
    pub fn fetch_data(&self, key: &[u8]) -> (r: Option<&V>)
        requires
            self.wf(),
        ensures
            match r {
                Some(v) => self.data.at(key@) == Some(*v),
                None => self.data.at(key@).is_none(),
            },
    {
        self.data.get(key)
    }

    /// Puts a data record under `key`, in place of what was there.
    pub fn store_data(&mut self, key: &[u8], value: V)
        requires
            old(self).wf(),
        ensures
            final(self).wf(),
            final(self).data.rows() == put_rows(old(self).data.rows(), key@, value),
            final(self).secrets == old(self).secrets,
            final(self).log == old(self).log,
    {
        self.data.put(key, value);
    }

    /// The data record under the largest key that begins with `prefix`.
    pub fn fetch_max_data(&self, prefix: &[u8]) -> (r: Option<&V>)
        ensures
            match r {
                Some(v) => rows_with_prefix(self.data.rows(), prefix@).len() > 0 && *v
                    == rows_with_prefix(self.data.rows(), prefix@).last().1,
                None => rows_with_prefix(self.data.rows(), prefix@).len() == 0,
            },
    {
        self.data.collect_last_prefixed_value(prefix)
    }

    /// The data records whose key begins with `prefix`, in key order.
    pub fn fetch_all_data(&self, prefix: &[u8]) -> (out: Vec<&V>)
        ensures
            borrowed(out@) == values_of(rows_with_prefix(self.data.rows(), prefix@)),
    {
        self.data.collect_prefixed_entries(prefix)
    }

    /// Reads the log record under `key`.
    pub fn fetch_log(&self, key: &[u8]) -> (r: Option<&V>)
        requires
            self.wf(),
        ensures
            match r {
                Some(v) => self.log.at(key@) == Some(*v),
                None => self.log.at(key@).is_none(),
            },
    {
        self.log.get(key)
    }

    /// Appends a record to the log. A key is written once: a second write to
    /// it is refused and changes nothing.
    pub fn store_log(&mut self, key: &[u8], value: V) -> (r: Result<(), KvStoreError>)
        requires
            old(self).wf(),
        ensures
            final(self).wf(),
            final(self).secrets == old(self).secrets,
            final(self).data == old(self).data,
            match r {
                Ok(_) => old(self).log.at(key@).is_none() && final(self).log.rows() == put_rows(
                    old(self).log.rows(),
                    key@,
                    value,
                ),
                Err(e) => e == KvStoreError::WriteOnce && old(self).log.at(key@).is_some()
                    && final(self).log == old(self).log,
            },
    {
        if self.log.get(key).is_some() {
            return Err(KvStoreError::WriteOnce);
        }
        self.log.put(key, value);
        Ok(())
    }

    /// The log record under the largest key that begins with `prefix`.
    pub fn fetch_max_log(&self, prefix: &[u8]) -> (r: Option<&V>)
        ensures
            match r {
                Some(v) => rows_with_prefix(self.log.rows(), prefix@).len() > 0 && *v
                    == rows_with_prefix(self.log.rows(), prefix@).last().1,
                None => rows_with_prefix(self.log.rows(), prefix@).len() == 0,
            },
    {
        self.log.collect_last_prefixed_value(prefix)
    }

    /// The log records whose key begins with `prefix`, in key order.
    pub fn fetch_all_log(&self, prefix: &[u8]) -> (out: Vec<&V>)
        ensures
            borrowed(out@) == values_of(rows_with_prefix(self.log.rows(), prefix@)),
    {
        self.log.collect_prefixed_entries(prefix)
    }

    /// At most `size` log records whose key begins with `prefix` and is not
    /// before `start`, the smallest keys first.
    pub fn fetch_log_range(&self, prefix: &[u8], start: &[u8], size: usize) -> (out: Vec<&V>)
        ensures
            borrowed(out@) == first_n(
                values_of(rows_from(self.log.rows(), prefix@, start@)),
                size as int,
            ),
    {
        self.log.collect_range(prefix, start, size)
    }
}

} // verus!
