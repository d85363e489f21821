//! Byte strings as storage keys: the lexicographic order in which an ordered
//! store keeps them, prefixes, and the big-endian encoding of record ids that
//! makes that order agree with the numeric order of the ids.

use vstd::prelude::*;

verus! {

/// `a` and `b` agree on their first `k` bytes, and at position `k` either `a`
/// ends while `b` goes on, or `a` holds the smaller byte.
pub open spec fn lex_lt_at(a: Seq<u8>, b: Seq<u8>, k: int) -> bool {
    &&& 0 <= k <= a.len()
    &&& k < b.len()
    &&& forall|j: int| #![trigger a[j]] 0 <= j < k ==> a[j] == b[j]
    &&& (k == a.len() || a[k] < b[k])
}

/// Strict lexicographic order on byte strings.
pub open spec fn lex_lt(a: Seq<u8>, b: Seq<u8>) -> bool {
    exists|k: int| lex_lt_at(a, b, k)
}

/// Lexicographic order on byte strings.
pub open spec fn lex_le(a: Seq<u8>, b: Seq<u8>) -> bool {
    a == b || lex_lt(a, b)
}

/// `s` begins with the bytes of `p`.
pub open spec fn has_prefix(s: Seq<u8>, p: Seq<u8>) -> bool {
    &&& p.len() <= s.len()
    &&& forall|j: int| #![trigger s[j]] 0 <= j < p.len() ==> s[j] == p[j]
}

/// How one key stands to another in the store's order.
#[derive(Clone, Copy, Debug, PartialEq, Eq, Structural)]
pub enum KeyOrder {
    Before,
    Same,
    After,
}

/// No byte string comes before itself.
pub proof fn lemma_lex_irreflexive(a: Seq<u8>)
    ensures
        !lex_lt(a, a),
{
    assert forall|k: int| !lex_lt_at(a, a, k) by {
        if 0 <= k < a.len() {
            assert(a[k] == a[k]);
        }
    }
}

/// The lexicographic order is transitive.
pub proof fn lemma_lex_transitive(a: Seq<u8>, b: Seq<u8>, c: Seq<u8>)
    requires
        lex_lt(a, b),
        lex_lt(b, c),
    ensures
        lex_lt(a, c),
{
    let k1 = choose|k: int| lex_lt_at(a, b, k);
    let k2 = choose|k: int| lex_lt_at(b, c, k);
    let k = if k1 <= k2 { k1 } else { k2 };
    assert forall|j: int| #![trigger a[j]] 0 <= j < k implies a[j] == c[j] by {
        assert(a[j] == b[j]);
        assert(b[j] == c[j]);
    }
    if k1 < k2 {
        assert(b[k1] == c[k1]);
    } else if k1 == k2 {
        if k1 < a.len() {
            assert(a[k1] < b[k1]);
        }
    } else {
        assert(a[k2] == b[k2]);
    }
    assert(lex_lt_at(a, c, k));
}

/// Two byte strings are never each before the other.
pub proof fn lemma_lex_asymmetric(a: Seq<u8>, b: Seq<u8>)
    requires
        lex_lt(a, b),
    ensures
        !lex_lt(b, a),
        a != b,
{
    lemma_lex_irreflexive(a);
    if lex_lt(b, a) {
        lemma_lex_transitive(a, b, a);
    }
}

/// `lex_le` is transitive, and mixes with `lex_lt` as an order should.
pub proof fn lemma_lex_le_lt(a: Seq<u8>, b: Seq<u8>, c: Seq<u8>)
    requires
        lex_le(a, b),
        lex_lt(b, c),
    ensures
        lex_lt(a, c),
{
    if a != b {
        lemma_lex_transitive(a, b, c);
    }
}

/// Putting the same bytes in front of two strings keeps their order.
pub proof fn lemma_lex_common_prefix(p: Seq<u8>, x: Seq<u8>, y: Seq<u8>)
    ensures
        lex_lt(p + x, p + y) <==> lex_lt(x, y),
        (p + x == p + y) <==> x == y,
{
    let a = p + x;
    let b = p + y;
    if lex_lt(x, y) {
        let k = choose|k: int| lex_lt_at(x, y, k);
        let n = p.len() as int;
        assert forall|j: int| #![trigger a[j]] 0 <= j < n + k implies a[j] == b[j] by {
            if j >= n {
                assert(x[j - n] == y[j - n]);
            }
        }
        if k < x.len() {
            assert(a[n + k] == x[k]);
            assert(b[n + k] == y[k]);
        }
        assert(lex_lt_at(a, b, n + k));
    }
    if lex_lt(a, b) {
        let m = choose|m: int| lex_lt_at(a, b, m);
        let n = p.len() as int;
        if m < n {
            assert(a[m] == p[m]);
            assert(b[m] == p[m]);
            assert(m < a.len());
            assert(false);
        }
        let k = m - n;
        assert forall|j: int| #![trigger x[j]] 0 <= j < k implies x[j] == y[j] by {
            assert(a[j + n] == b[j + n]);
        }
        if k < x.len() {
            assert(a[m] == x[k]);
            assert(b[m] == y[k]);
        }
        assert(lex_lt_at(x, y, k));
    }
    if a == b {
        assert(x.len() == y.len()) by {
            assert(a.len() == p.len() + x.len());
            assert(b.len() == p.len() + y.len());
        }
        assert forall|j: int| 0 <= j < x.len() implies x[j] == y[j] by {
            assert(a[j + p.len()] == x[j]);
            assert(b[j + p.len()] == y[j]);
        }
        assert(x =~= y);
    }
}

/// Of two byte strings one comes first, or they are equal.
pub proof fn lemma_lex_total(a: Seq<u8>, b: Seq<u8>)
    ensures
        lex_lt(a, b) || a == b || lex_lt(b, a),
    decreases a.len(),
{
    if a.len() == 0 {
        if b.len() == 0 {
            assert(a =~= b);
        } else {
            assert(lex_lt_at(a, b, 0));
        }
    } else if b.len() == 0 {
        assert(lex_lt_at(b, a, 0));
    } else if a[0] < b[0] {
        assert(lex_lt_at(a, b, 0));
    } else if b[0] < a[0] {
        assert(lex_lt_at(b, a, 0));
    } else {
        let p = a.subrange(0, 1);
        let x = a.subrange(1, a.len() as int);
        let y = b.subrange(1, b.len() as int);
        assert(a =~= p + x);
        assert(b =~= p + y);
        lemma_lex_total(x, y);
        lemma_lex_common_prefix(p, x, y);
        lemma_lex_common_prefix(p, y, x);
    }
}

/// Compares two keys byte by byte.
pub fn key_order(a: &[u8], b: &[u8]) -> (r: KeyOrder)
    ensures
        r == KeyOrder::Before <==> lex_lt(a@, b@),
        r == KeyOrder::Same <==> a@ == b@,
        r == KeyOrder::After <==> lex_lt(b@, a@),
{
    let mut i: usize = 0;
    while i < a.len() && i < b.len()
        invariant
            i <= a.len(),
            i <= b.len(),
            forall|j: int| 0 <= j < i ==> a@[j] == b@[j],
        decreases a.len() - i,
    {
        if a[i] < b[i] {
            proof {
                assert(lex_lt_at(a@, b@, i as int));
                lemma_lex_asymmetric(a@, b@);
            }
            return KeyOrder::Before;
        }
        if a[i] > b[i] {
            proof {
                assert(lex_lt_at(b@, a@, i as int));
                lemma_lex_asymmetric(b@, a@);
            }
            return KeyOrder::After;
        }
        i += 1;
    }
    if i < b.len() {
        proof {
            assert(lex_lt_at(a@, b@, i as int));
            lemma_lex_asymmetric(a@, b@);
        }
        KeyOrder::Before
    } else if i < a.len() {
        proof {
            assert(lex_lt_at(b@, a@, i as int));
            lemma_lex_asymmetric(b@, a@);
        }
        KeyOrder::After
    } else {
        proof {
            assert(a@ =~= b@);
            lemma_lex_irreflexive(a@);
        }
        KeyOrder::Same
    }
}

/// Tells whether the key `s` begins with `p`.
pub fn starts_with(s: &[u8], p: &[u8]) -> (r: bool)
    ensures
        r == has_prefix(s@, p@),
{
    if p.len() > s.len() {
        return false;
    }
    let mut i: usize = 0;
    while i < p.len()
        invariant
            i <= p.len(),
            p.len() <= s.len(),
            forall|j: int| #![trigger s@[j]] 0 <= j < i ==> s@[j] == p@[j],
        decreases p.len() - i,
    {
        if s[i] != p[i] {
            return false;
        }
        i += 1;
    }
    true
}

/// The byte of `id` at position `i` of its eight-byte big-endian form,
/// position 0 being the most significant.
pub open spec fn be_byte(id: u64, i: int) -> u8 {
    if i == 0 {
        (id / 256 / 256 / 256 / 256 / 256 / 256 / 256 % 256) as u8
    } else if i == 1 {
        (id / 256 / 256 / 256 / 256 / 256 / 256 % 256) as u8
    } else if i == 2 {
        (id / 256 / 256 / 256 / 256 / 256 % 256) as u8
    } else if i == 3 {
        (id / 256 / 256 / 256 / 256 % 256) as u8
    } else if i == 4 {
        (id / 256 / 256 / 256 % 256) as u8
    } else if i == 5 {
        (id / 256 / 256 % 256) as u8
    } else if i == 6 {
        (id / 256 % 256) as u8
    } else {
        (id % 256) as u8
    }
}

/// The eight-byte big-endian form of `id`.
pub open spec fn be_bytes(id: u64) -> Seq<u8> {
    Seq::new(8, |i: int| be_byte(id, i))
}

/// The number that eight big-endian bytes stand for.
pub open spec fn be_value(b: Seq<u8>) -> int {
    ((((((b[0] * 256 + b[1]) * 256 + b[2]) * 256 + b[3]) * 256 + b[4]) * 256 + b[5]) * 256
        + b[6]) * 256 + b[7]
}

/// Reading the big-endian form of `id` back gives `id`.
pub proof fn lemma_be_value(id: u64)
    ensures
        be_bytes(id).len() == 8,
        be_value(be_bytes(id)) == id,
{
    let b = be_bytes(id);
    let q1 = id as int / 256;
    let q2 = q1 / 256;
    let q3 = q2 / 256;
    let q4 = q3 / 256;
    let q5 = q4 / 256;
    let q6 = q5 / 256;
    let q7 = q6 / 256;
    assert(q7 < 256);
    assert(b[7] == id as int % 256);
    assert(b[6] == q1 % 256);
    assert(b[5] == q2 % 256);
    assert(b[4] == q3 % 256);
    assert(b[3] == q4 % 256);
    assert(b[2] == q5 % 256);
    assert(b[1] == q6 % 256);
    assert(b[0] == q7);
    assert(q6 == b[0] * 256 + b[1]);
    assert(q5 == q6 * 256 + b[2]);
    assert(q4 == q5 * 256 + b[3]);
    assert(q3 == q4 * 256 + b[4]);
    assert(q2 == q3 * 256 + b[5]);
    assert(q1 == q2 * 256 + b[6]);
    assert(id == q1 * 256 + b[7]);
}

/// Big-endian forms are ordered as the numbers are: the property that lets an
/// ordered byte-key store answer "largest id" and "ids from here on".
pub proof fn lemma_be_bytes_order(a: u64, b: u64)
    ensures
        a < b <==> lex_lt(be_bytes(a), be_bytes(b)),
        a == b <==> be_bytes(a) == be_bytes(b),
{
    lemma_be_value(a);
    lemma_be_value(b);
    if a < b {
        lemma_be_first_difference(a, b);
    }
    if b < a {
        lemma_be_first_difference(b, a);
        lemma_lex_asymmetric(be_bytes(b), be_bytes(a));
    }
    if a == b {
        lemma_lex_irreflexive(be_bytes(a));
    }
}

proof fn lemma_be_first_difference(a: u64, b: u64)
    requires
        a < b,
    ensures
        lex_lt(be_bytes(a), be_bytes(b)),
{
    lemma_be_value(a);
    lemma_be_value(b);
    let x = be_bytes(a);
    let y = be_bytes(b);
    if x[0] != y[0] {
        assert(lex_lt_at(x, y, 0));
    } else if x[1] != y[1] {
        assert(lex_lt_at(x, y, 1));
    } else if x[2] != y[2] {
        assert(lex_lt_at(x, y, 2));
    } else if x[3] != y[3] {
        assert(lex_lt_at(x, y, 3));
    } else if x[4] != y[4] {
        assert(lex_lt_at(x, y, 4));
    } else if x[5] != y[5] {
        assert(lex_lt_at(x, y, 5));
    } else if x[6] != y[6] {
        assert(lex_lt_at(x, y, 6));
    } else {
        assert(x[7] != y[7]);
        assert(lex_lt_at(x, y, 7));
    }
}

/// Appends the eight-byte big-endian form of `id` to `buf`.
pub fn push_be_bytes(buf: &mut Vec<u8>, id: u64)
    ensures
        final(buf)@ == old(buf)@ + be_bytes(id),
{
    let q1: u64 = id / 256;
    let q2: u64 = q1 / 256;
    let q3: u64 = q2 / 256;
    let q4: u64 = q3 / 256;
    let q5: u64 = q4 / 256;
    let q6: u64 = q5 / 256;
    let q7: u64 = q6 / 256;
    buf.push((q7 % 256) as u8);
    buf.push((q6 % 256) as u8);
    buf.push((q5 % 256) as u8);
    buf.push((q4 % 256) as u8);
    buf.push((q3 % 256) as u8);
    buf.push((q2 % 256) as u8);
    buf.push((q1 % 256) as u8);
    buf.push((id % 256) as u8);
    proof {
        let want = old(buf)@ + be_bytes(id);
        assert(buf@.len() == want.len());
        assert forall|j: int| 0 <= j < want.len() implies buf@[j] == want[j] by {
            let n = old(buf)@.len() as int;
            if j >= n {
                assert(want[j] == be_bytes(id)[j - n]);
                assert(be_bytes(id)[j - n] == be_byte(id, j - n));
            }
        }
        assert(buf@ =~= want);
    }
}

} // verus!
