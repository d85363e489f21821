//! What holds of the registry of subscriptions when entries leave it.

use vstd::prelude::*;
use crate::api::Timite;
use crate::tim_space::{
    distinct, lemma_vanished, lists, owners, present, registry_ok, vanished, Subscriber,
};

verus! {

/// Every subscription of `after` is one of `before`.
pub open spec fn survivors_of(after: Seq<Subscriber>, before: Seq<Subscriber>) -> bool {
    forall|i: int| 0 <= i < after.len() ==> before.contains(#[trigger] after[i])
}

/// What remains of a registry in order is a registry in order: it holds
/// subscriptions of the registry only, all that pass the test and no others,
/// and where it is as long as the registry it is the registry.
pub proof fn lemma_filter_registry(subs: Seq<Subscriber>, pred: spec_fn(Subscriber) -> bool)
    requires
        registry_ok(subs),
    ensures
        registry_ok(subs.filter(pred)),
        survivors_of(subs.filter(pred), subs),
        forall|i: int| 0 <= i < subs.filter(pred).len() ==> pred(#[trigger] subs.filter(pred)[i]),
        forall|i: int|
            0 <= i < subs.len() && pred(#[trigger] subs[i]) ==> subs.filter(pred).contains(subs[i]),
        subs.filter(pred).len() <= subs.len(),
        subs.filter(pred).len() == subs.len() ==> subs.filter(pred) == subs,
    decreases subs.len(),
{
    reveal(Seq::filter);
    let f = subs.filter(pred);
    if subs.len() > 0 {
        let head = subs.drop_last();
        let last = subs.last();
        let fh = head.filter(pred);
        assert(registry_ok(head)) by {
            assert forall|i: int, j: int| #![trigger head[i], head[j]] 0 <= i < j < head.len() implies head[i].session.key@
                != head[j].session.key@ by {
                assert(head[i] == subs[i] && head[j] == subs[j]);
            }
            assert forall|i: int| #![trigger head[i]] 0 <= i < head.len() implies head[i].session.timite_id
                == head[i].timite.id by {
                assert(head[i] == subs[i]);
            }
        }
        lemma_filter_registry(head, pred);
        assert forall|i: int| 0 <= i < f.len() implies subs.contains(#[trigger] f[i]) && pred(
            f[i],
        ) by {
            if i < fh.len() {
                assert(f[i] == fh[i]);
                assert(head.contains(fh[i]));
                let k = choose|k: int| 0 <= k < head.len() && head[k] == fh[i];
                assert(subs[k] == f[i]);
            } else {
                assert(f[i] == last);
                assert(subs[subs.len() - 1] == last);
            }
        }
        assert forall|i: int| 0 <= i < subs.len() && pred(#[trigger] subs[i]) implies f.contains(
            subs[i],
        ) by {
            if i < head.len() {
                assert(head[i] == subs[i]);
                assert(fh.contains(head[i]));
                let k = choose|k: int| 0 <= k < fh.len() && fh[k] == head[i];
                assert(f[k] == subs[i]);
            } else {
                assert(f[f.len() - 1] == subs[i]);
            }
        }
        assert forall|i: int, j: int| #![trigger f[i], f[j]] 0 <= i < j < f.len() implies f[i].session.key@
            != f[j].session.key@ by {
            if j < fh.len() {
                assert(fh[i].session.key@ != fh[j].session.key@);
            } else {
                assert(f[j] == last);
                assert(head.contains(fh[i]));
                let k = choose|k: int| 0 <= k < head.len() && head[k] == fh[i];
                assert(subs[k].session.key@ != subs[subs.len() - 1].session.key@);
            }
        }
        assert forall|i: int| #![trigger f[i]] 0 <= i < f.len() implies f[i].session.timite_id
            == f[i].timite.id by {
            assert(subs.contains(f[i]));
            let k = choose|k: int| 0 <= k < subs.len() && subs[k] == f[i];
            assert(subs[k].session.timite_id == subs[k].timite.id);
        }
        if f.len() == subs.len() {
            assert(fh.len() == head.len());
            assert(f =~= head.push(last));
            assert(head.push(last) =~= subs);
        }
    }
}

/// A participant is among the owners of a registry exactly where it is present.
pub proof fn lemma_owners(subs: Seq<Subscriber>)
    ensures
        forall|id: u64| #[trigger] lists(owners(subs), id) <==> present(subs, id),
{
    assert forall|id: u64| #[trigger] lists(owners(subs), id) <==> present(subs, id) by {
        if lists(owners(subs), id) {
            let i = choose|i: int| 0 <= i < owners(subs).len() && (#[trigger] owners(subs)[i]).id == id;
            assert(subs[i].timite.id == id);
        }
        if present(subs, id) {
            let i = choose|i: int| 0 <= i < subs.len() && (#[trigger] subs[i]).timite.id == id;
            assert(owners(subs)[i].id == id);
        }
    }
}

/// Who is present among the survivors was present before.
pub proof fn lemma_survivors(after: Seq<Subscriber>, before: Seq<Subscriber>)
    requires
        survivors_of(after, before),
    ensures
        forall|id: u64| present(after, id) ==> present(before, id),
{
    assert forall|id: u64| present(after, id) implies present(before, id) by {
        let i = choose|i: int| 0 <= i < after.len() && (#[trigger] after[i]).timite.id == id;
        assert(before.contains(after[i]));
        let k = choose|k: int| 0 <= k < before.len() && before[k] == after[i];
        assert(before[k].timite.id == id);
    }
}

/// Being a survivor carries over.
pub proof fn lemma_survivors_transitive(
    last: Seq<Subscriber>,
    mid: Seq<Subscriber>,
    first: Seq<Subscriber>,
)
    requires
        survivors_of(last, mid),
        survivors_of(mid, first),
    ensures
        survivors_of(last, first),
{
    assert forall|i: int| 0 <= i < last.len() implies first.contains(#[trigger] last[i]) by {
        assert(mid.contains(last[i]));
        let k = choose|k: int| 0 <= k < mid.len() && mid[k] == last[i];
        assert(first.contains(mid[k]));
    }
}

/// One more participant in a list.
pub proof fn lemma_lists_push(list: Seq<Timite>, t: Timite)
    ensures
        forall|id: u64| #[trigger] lists(list.push(t), id) <==> lists(list, id) || t.id == id,
        distinct(list) && !lists(list, t.id) ==> distinct(list.push(t)),
{
    let more = list.push(t);
    assert forall|id: u64| #[trigger] lists(more, id) <==> lists(list, id) || t.id == id by {
        if lists(more, id) {
            let i = choose|i: int| 0 <= i < more.len() && (#[trigger] more[i]).id == id;
            if i < list.len() {
                assert(list[i].id == id);
            }
        }
        if lists(list, id) {
            let i = choose|i: int| 0 <= i < list.len() && (#[trigger] list[i]).id == id;
            assert(more[i].id == id);
        }
        if t.id == id {
            assert(more[more.len() - 1].id == id);
        }
    }
    if distinct(list) && !lists(list, t.id) {
        assert forall|i: int, j: int| #![trigger more[i], more[j]] 0 <= i < j < more.len() implies more[i].id
            != more[j].id by {
            if j < list.len() {
                assert(list[i].id != list[j].id);
            } else {
                if more[i].id == t.id {
                    assert(list[i].id == t.id);
                }
            }
        }
    }
}

/// Two lists, one after the other.
pub proof fn lemma_lists_concat(a: Seq<Timite>, b: Seq<Timite>)
    ensures
        forall|id: u64| #[trigger] lists(a + b, id) <==> lists(a, id) || lists(b, id),
        distinct(a) && distinct(b) && (forall|id: u64| lists(a, id) ==> !lists(b, id))
            ==> distinct(a + b),
{
    let both = a + b;
    assert forall|id: u64| #[trigger] lists(both, id) <==> lists(a, id) || lists(b, id) by {
        if lists(both, id) {
            let i = choose|i: int| 0 <= i < both.len() && (#[trigger] both[i]).id == id;
            if i < a.len() {
                assert(a[i].id == id);
            } else {
                assert(b[i - a.len()].id == id);
            }
        }
        if lists(a, id) {
            let i = choose|i: int| 0 <= i < a.len() && (#[trigger] a[i]).id == id;
            assert(both[i].id == id);
        }
        if lists(b, id) {
            let i = choose|i: int| 0 <= i < b.len() && (#[trigger] b[i]).id == id;
            assert(both[i + a.len()].id == id);
        }
    }
    if distinct(a) && distinct(b) && (forall|id: u64| lists(a, id) ==> !lists(b, id)) {
        assert forall|i: int, j: int| #![trigger both[i], both[j]] 0 <= i < j < both.len() implies both[i].id
            != both[j].id by {
            if j < a.len() {
                assert(a[i].id != a[j].id);
            } else if i >= a.len() {
                assert(b[i - a.len()].id != b[j - a.len()].id);
            } else {
                assert(a[i].id == both[i].id);
                assert(b[j - a.len()].id == both[j].id);
                if both[i].id == both[j].id {
                    assert(lists(a, both[i].id));
                    assert(lists(b, both[i].id));
                }
            }
        }
    }
}

/// A list without its last participant.
pub proof fn lemma_lists_drop_last(list: Seq<Timite>)
    requires
        list.len() > 0,
        distinct(list),
    ensures
        distinct(list.drop_last()),
        !lists(list.drop_last(), list.last().id),
        forall|id: u64|
            #[trigger] lists(list, id) <==> lists(list.drop_last(), id) || list.last().id == id,
{
    let head = list.drop_last();
    assert(head.push(list.last()) =~= list);
    lemma_lists_push(head, list.last());
    assert forall|i: int, j: int| #![trigger head[i], head[j]] 0 <= i < j < head.len() implies head[i].id
        != head[j].id by {
        assert(list[i].id != list[j].id);
    }
    if lists(head, list.last().id) {
        let i = choose|i: int| 0 <= i < head.len() && (#[trigger] head[i]).id == list.last().id;
        assert(list[i].id != list[list.len() - 1].id);
    }
}

/// Nobody has vanished where everybody is still present.
pub proof fn lemma_vanished_none(before: Seq<Timite>, after: Seq<Subscriber>)
    requires
        forall|id: u64| lists(before, id) ==> present(after, id),
    ensures
        vanished(before, after).len() == 0,
{
    lemma_vanished(before, after);
    let out = vanished(before, after);
    if out.len() > 0 {
        assert(lists(out, out[0].id));
    }
}

/// What one more participant adds to the vanished.
pub proof fn lemma_vanished_push(before: Seq<Timite>, t: Timite, after: Seq<Subscriber>)
    ensures
        vanished(before.push(t), after) == if present(after, t.id) || lists(
            vanished(before, after),
            t.id,
        ) {
            vanished(before, after)
        } else {
            vanished(before, after).push(t)
        },
{
    assert(before.push(t).drop_last() =~= before);
}

/// Of two tests of which the first implies the second on every item, the
/// first lets no more items pass.
pub proof fn lemma_filter_fewer<A>(s: Seq<A>, p: spec_fn(A) -> bool, q: spec_fn(A) -> bool)
    requires
        forall|i: int| 0 <= i < s.len() && p(#[trigger] s[i]) ==> q(s[i]),
    ensures
        s.filter(p).len() <= s.filter(q).len(),
    decreases s.len(),
{
    reveal(Seq::filter);
    if s.len() > 0 {
        let head = s.drop_last();
        assert forall|i: int| 0 <= i < head.len() && p(#[trigger] head[i]) implies q(head[i]) by {
            assert(head[i] == s[i]);
        }
        lemma_filter_fewer(head, p, q);
        assert(s.last() == s[s.len() - 1]);
    }
}

/// What passes a test and what fails it are all there is.
pub proof fn lemma_filter_split<A>(s: Seq<A>, p: spec_fn(A) -> bool)
    ensures
        s.filter(p).len() + s.filter(|x: A| !p(x)).len() == s.len(),
    decreases s.len(),
{
    reveal(Seq::filter);
    if s.len() > 0 {
        lemma_filter_split(s.drop_last(), p);
    }
}

/// No more participants have vanished than subscriptions belong to
/// participants that are no longer present.
pub proof fn lemma_vanished_fewer(before: Seq<Subscriber>, after: Seq<Subscriber>)
    ensures
        vanished(owners(before), after).len() <= before.filter(
            |s: Subscriber| !present(after, s.timite.id),
        ).len(),
    decreases before.len(),
{
    reveal(Seq::filter);
    if before.len() > 0 {
        let head = before.drop_last();
        lemma_vanished_fewer(head, after);
        assert(owners(before).drop_last() =~= owners(head));
        assert(owners(before).last() == before.last().timite);
    }
}

/// The participants that vanish when subscriptions are removed are no more
/// than the subscriptions that are removed.
pub proof fn lemma_vanished_count(before: Seq<Subscriber>, keep: spec_fn(Subscriber) -> bool)
    requires
        registry_ok(before),
    ensures
        vanished(owners(before), before.filter(keep)).len() + before.filter(keep).len()
            <= before.len(),
{
    let after = before.filter(keep);
    let lost = |s: Subscriber| !present(after, s.timite.id);
    let dropped = |s: Subscriber| !keep(s);
    lemma_filter_registry(before, keep);
    lemma_vanished_fewer(before, after);
    assert forall|i: int| 0 <= i < before.len() && lost(#[trigger] before[i]) implies dropped(
        before[i],
    ) by {
        if keep(before[i]) {
            assert(after.contains(before[i]));
            let k = choose|k: int| 0 <= k < after.len() && after[k] == before[i];
            assert(after[k].timite.id == before[i].timite.id);
        }
    }
    lemma_filter_fewer(before, lost, dropped);
    lemma_filter_split(before, keep);
}

} // verus!
