//! Rows that stand under a prefix followed by the big-endian id of their
//! record: what the byte order of such rows says about the ids.

use vstd::prelude::*;
use crate::bytes::{
    be_bytes, has_prefix, lemma_be_bytes_order, lemma_lex_asymmetric, lemma_lex_common_prefix,
    lex_le, lex_lt,
};
use crate::kvstore::{
    has_key, lemma_filter_push, lemma_lookup, lemma_lookup_absent, lemma_put_rows,
    lemma_slot_exists, lookup, ordered, put_rows, rows_from, rows_with_prefix, slot, values_of,
};

verus! {

/// The key of the record `id` under `prefix`.
pub open spec fn id_key(prefix: Seq<u8>, id: u64) -> Seq<u8> {
    prefix + be_bytes(id)
}

/// Every row stands under the key of its record's id.
pub open spec fn id_keyed<V>(rows: Seq<(Seq<u8>, V)>, prefix: Seq<u8>, idf: spec_fn(V) -> u64) -> bool {
    forall|i: int| #![trigger rows[i]] 0 <= i < rows.len() ==> rows[i].0 == id_key(prefix, idf(rows[i].1))
}

/// The ids of the records rise strictly along the sequence.
pub open spec fn ascending<V>(log: Seq<V>, idf: spec_fn(V) -> u64) -> bool {
    forall|i: int, j: int| #![trigger log[i], log[j]] 0 <= i < j < log.len() ==> idf(log[i]) < idf(log[j])
}

/// The records of `log` whose id is at least `start`, in the order of `log`.
pub open spec fn from_id<V>(log: Seq<V>, idf: spec_fn(V) -> u64, start: u64) -> Seq<V> {
    log.filter(|v: V| idf(v) >= start)
}

/// Keys under one prefix are ordered as their ids are.
pub proof fn lemma_id_key_order(prefix: Seq<u8>, a: u64, b: u64)
    ensures
        lex_lt(id_key(prefix, a), id_key(prefix, b)) <==> a < b,
        id_key(prefix, a) == id_key(prefix, b) <==> a == b,
        lex_le(id_key(prefix, a), id_key(prefix, b)) <==> a <= b,
        has_prefix(id_key(prefix, a), prefix),
{
    lemma_lex_common_prefix(prefix, be_bytes(a), be_bytes(b));
    lemma_be_bytes_order(a, b);
}

/// Rows in key order hold their records in id order.
pub proof fn lemma_id_keyed_ascending<V>(
    rows: Seq<(Seq<u8>, V)>,
    prefix: Seq<u8>,
    idf: spec_fn(V) -> u64,
)
    requires
        ordered(rows),
        id_keyed(rows, prefix, idf),
    ensures
        ascending(values_of(rows), idf),
{
    let log = values_of(rows);
    assert forall|i: int, j: int| #![trigger log[i], log[j]] 0 <= i < j < log.len() implies idf(
        log[i],
    ) < idf(log[j]) by {
        assert(lex_lt(rows[i].0, rows[j].0));
        lemma_id_key_order(prefix, idf(rows[i].1), idf(rows[j].1));
    }
}

/// The record found under the key of `id` is the one record with that id.
pub proof fn lemma_id_keyed_find<V>(
    rows: Seq<(Seq<u8>, V)>,
    prefix: Seq<u8>,
    idf: spec_fn(V) -> u64,
    id: u64,
)
    requires
        ordered(rows),
        id_keyed(rows, prefix, idf),
    ensures
        match lookup(rows, id_key(prefix, id)) {
            Some(v) => idf(v) == id && exists|i: int|
                0 <= i < rows.len() && #[trigger] rows[i] == (id_key(prefix, id), v),
            None => forall|i: int| #![trigger rows[i]] 0 <= i < rows.len() ==> idf(rows[i].1) != id,
        },
{
    let key = id_key(prefix, id);
    lemma_slot_exists(rows, key);
    if has_key(rows, key) {
        let p = slot(rows, key);
        lemma_id_key_order(prefix, idf(rows[p].1), id);
        assert(rows[p] == (key, rows[p].1));
    } else {
        assert forall|i: int| #![trigger rows[i]] 0 <= i < rows.len() implies idf(rows[i].1)
            != id by {
            if idf(rows[i].1) == id {
                lemma_lookup(rows, key, i);
            }
        }
    }
}

/// Filtering by a test that every item passes changes nothing.
pub proof fn lemma_filter_all<A>(s: Seq<A>, pred: spec_fn(A) -> bool)
    requires
        forall|i: int| 0 <= i < s.len() ==> pred(#[trigger] s[i]),
    ensures
        s.filter(pred) == s,
    decreases s.len(),
{
    reveal(Seq::filter);
    if s.len() > 0 {
        let head = s.drop_last();
        assert forall|i: int| 0 <= i < head.len() implies pred(#[trigger] head[i]) by {
            assert(head[i] == s[i]);
        }
        lemma_filter_all(head, pred);
        assert(pred(s.last()));
        assert(head.push(s.last()) =~= s);
    } else {
        assert(s.filter(pred) =~= s);
    }
}

/// Filtering rows by their keys and filtering their records by a test that
/// says the same of each row select the same records.
pub proof fn lemma_filter_values<V>(
    rows: Seq<(Seq<u8>, V)>,
    p: spec_fn((Seq<u8>, V)) -> bool,
    q: spec_fn(V) -> bool,
)
    requires
        forall|i: int| 0 <= i < rows.len() ==> p(#[trigger] rows[i]) == q(rows[i].1),
    ensures
        values_of(rows.filter(p)) == values_of(rows).filter(q),
    decreases rows.len(),
{
    reveal(Seq::filter);
    if rows.len() > 0 {
        let head = rows.drop_last();
        let last = rows.last();
        assert forall|i: int| 0 <= i < head.len() implies p(#[trigger] head[i]) == q(head[i].1) by {
            assert(head[i] == rows[i]);
        }
        lemma_filter_values(head, p, q);
        assert(rows =~= head.push(last));
        lemma_filter_push(head, last, p);
        assert(values_of(rows) =~= values_of(head).push(last.1));
        lemma_filter_push(values_of(head), last.1, q);
        assert(p(last) == q(last.1));
        if p(last) {
            assert(values_of(head.filter(p).push(last)) =~= values_of(head.filter(p)).push(last.1));
        }
    } else {
        assert(values_of(rows.filter(p)) =~= values_of(rows).filter(q));
    }
}

/// Under one prefix, every row begins with it.
pub proof fn lemma_id_keyed_all_prefixed<V>(
    rows: Seq<(Seq<u8>, V)>,
    prefix: Seq<u8>,
    idf: spec_fn(V) -> u64,
)
    requires
        id_keyed(rows, prefix, idf),
    ensures
        rows_with_prefix(rows, prefix) == rows,
{
    let pred = |r: (Seq<u8>, V)| has_prefix(r.0, prefix);
    assert forall|i: int| 0 <= i < rows.len() implies pred(#[trigger] rows[i]) by {
        lemma_id_key_order(prefix, idf(rows[i].1), 0);
    }
    lemma_filter_all(rows, pred);
}

/// Reading from the key of `start` on selects the records whose id is at least `start`.
pub proof fn lemma_id_keyed_from<V>(
    rows: Seq<(Seq<u8>, V)>,
    prefix: Seq<u8>,
    idf: spec_fn(V) -> u64,
    start: u64,
)
    requires
        id_keyed(rows, prefix, idf),
    ensures
        values_of(rows_from(rows, prefix, id_key(prefix, start))) == from_id(
            values_of(rows),
            idf,
            start,
        ),
{
    let p = |r: (Seq<u8>, V)| has_prefix(r.0, prefix) && lex_le(id_key(prefix, start), r.0);
    let q = |v: V| idf(v) >= start;
    assert forall|i: int| 0 <= i < rows.len() implies p(#[trigger] rows[i]) == q(rows[i].1) by {
        lemma_id_key_order(prefix, start, idf(rows[i].1));
        lemma_id_key_order(prefix, idf(rows[i].1), start);
    }
    lemma_filter_values(rows, p, q);
}

/// Putting a record under the key of its id keeps the rows keyed by id.
pub proof fn lemma_id_keyed_put<V>(
    rows: Seq<(Seq<u8>, V)>,
    prefix: Seq<u8>,
    idf: spec_fn(V) -> u64,
    value: V,
)
    requires
        ordered(rows),
        id_keyed(rows, prefix, idf),
    ensures
        id_keyed(put_rows(rows, id_key(prefix, idf(value)), value), prefix, idf),
        ordered(put_rows(rows, id_key(prefix, idf(value)), value)),
{
    let key = id_key(prefix, idf(value));
    lemma_slot_exists(rows, key);
    lemma_put_rows(rows, key, value);
    let after = put_rows(rows, key, value);
    let p = slot(rows, key);
    assert forall|i: int| #![trigger after[i]] 0 <= i < after.len() implies after[i].0 == id_key(
        prefix,
        idf(after[i].1),
    ) by {
        if has_key(rows, key) {
            if i != p {
                assert(after[i] == rows[i]);
            }
        } else {
            if i < p {
                assert(after[i] == rows[i]);
            } else if i > p {
                assert(after[i] == rows[i - 1]);
            }
        }
    }
}

/// The last row holds the largest id, and without rows no id is found.
pub proof fn lemma_id_keyed_top<V>(rows: Seq<(Seq<u8>, V)>, prefix: Seq<u8>, idf: spec_fn(V) -> u64)
    requires
        ordered(rows),
        id_keyed(rows, prefix, idf),
    ensures
        rows.len() == 0 ==> forall|id: u64| (#[trigger] lookup(rows, id_key(prefix, id))).is_none(),
        rows.len() > 0 ==> lookup(rows, id_key(prefix, idf(rows.last().1))) == Some(rows.last().1),
        rows.len() > 0 ==> forall|id: u64|
            (#[trigger] lookup(rows, id_key(prefix, id))).is_some() ==> id <= idf(rows.last().1),
{
    if rows.len() == 0 {
        assert forall|id: u64| (#[trigger] lookup(rows, id_key(prefix, id))).is_none() by {
            lemma_lookup_absent(rows, id_key(prefix, id));
        }
    } else {
        let n = rows.len() - 1;
        assert(rows[n].0 == id_key(prefix, idf(rows[n].1)));
        lemma_lookup(rows, rows[n].0, n);
        lemma_id_keyed_ascending(rows, prefix, idf);
        let log = values_of(rows);
        assert forall|id: u64| (#[trigger] lookup(rows, id_key(prefix, id))).is_some() implies id
            <= idf(rows.last().1) by {
            lemma_id_keyed_find(rows, prefix, idf, id);
            let v = lookup(rows, id_key(prefix, id)).unwrap();
            let i = choose|i: int| 0 <= i < rows.len() && #[trigger] rows[i] == (id_key(prefix, id), v);
            if i < n {
                assert(idf(log[i]) < idf(log[n]));
            }
        }
    }
}

/// A record whose id is above every stored id goes to the end.
pub proof fn lemma_id_keyed_append<V>(
    rows: Seq<(Seq<u8>, V)>,
    prefix: Seq<u8>,
    idf: spec_fn(V) -> u64,
    value: V,
)
    requires
        ordered(rows),
        id_keyed(rows, prefix, idf),
        forall|i: int| #![trigger rows[i]] 0 <= i < rows.len() ==> idf(rows[i].1) < idf(value),
    ensures
        put_rows(rows, id_key(prefix, idf(value)), value) == rows.push(
            (id_key(prefix, idf(value)), value),
        ),
        !has_key(rows, id_key(prefix, idf(value))),
{
    let key = id_key(prefix, idf(value));
    assert forall|i: int| #![trigger rows[i]] 0 <= i < rows.len() implies lex_lt(rows[i].0, key) by {
        lemma_id_key_order(prefix, idf(rows[i].1), idf(value));
    }
    crate::kvstore::lemma_put_rows_at_end(rows, key, value);
}

} // verus!
