//! What holds of the space across its operations: the laws that its users
//! rely on, each proved from the contracts of the operations it speaks of.

use vstd::prelude::*;
use crate::api::{EventData, SpaceEvent, Timestamp, Timite};
use crate::kvstore::first_n;
use crate::tim_space::{
    announces, deliverable, event_of, leavers, lists, present, selected, stamped, Subscriber,
    TimSpace,
};
use crate::tim_space::registry::lemma_filter_registry;
use crate::tim_storage::{event_idf, events_from, tail_start, timeline_page, TimStorage};
use crate::tim_storage::keyed::{ascending, from_id, lemma_filter_all};

verus! {

/// The ids of the timeline rise by one from event to event.
pub open spec fn gap_free(log: Seq<SpaceEvent>) -> bool {
    forall|i: int| 0 <= i < log.len() ==> (#[trigger] log[i]).metadata.id == log[0].metadata.id + i
}

/// Monotonic ids without gaps, one publication: the events that a
/// publication adds carry the ids that follow the counter, one by one, in
/// the order in which they stand in the timeline, and the counter ends at
/// the last of them.
pub proof fn law_publication_ids(
    after: TimSpace,
    storage: TimStorage,
    before: TimSpace,
    stored: TimStorage,
    data: EventData,
    now: Timestamp,
)
    requires
        after.published(&storage, &before, &stored, data, now),
    ensures
        forall|k: int|
            stored.events().len() <= k < storage.events().len() ==> (
            #[trigger] storage.events()[k]).metadata.id == before.counter() + 1 + (k
                - stored.events().len()),
        after.counter() == storage.events().last().metadata.id,
        after.counter() > before.counter(),
{
    let log = storage.events();
    let base = stored.events();
    let added = log.skip(base.len() as int);
    assert forall|k: int| base.len() <= k < log.len() implies (#[trigger] log[k]).metadata.id
        == before.counter() + 1 + (k - base.len()) by {
        assert(added[k - base.len()] == log[k]);
    }
    assert(added[added.len() - 1] == log.last());
}

/// With nobody subscribed a publication adds its one event and nothing else.
pub proof fn law_quiet_publication(
    after: TimSpace,
    storage: TimStorage,
    before: TimSpace,
    stored: TimStorage,
    data: EventData,
    now: Timestamp,
)
    requires
        before.subscribers().len() == 0,
        after.published(&storage, &before, &stored, data, now),
    ensures
        storage.events() == stored.events().push(event_of(before.counter() + 1, now, data)),
        after.counter() == before.counter() + 1,
        after.subscribers().len() == 0,
{
    let log = storage.events();
    let base = stored.events();
    let tail = log.skip(base.len() as int + 1);
    if tail.len() > 0 {
        let id = leavers(tail)[0].id;
        assert(lists(leavers(tail), id));
        assert(present(before.subscribers(), id) && !present(after.subscribers(), id));
        assert(false);
    }
    if after.subscribers().len() > 0 {
        assert(before.subscribers().contains(after.subscribers()[0]));
    }
    assert(log =~= base.push(event_of(before.counter() + 1, now, data))) by {
        assert(log.subrange(0, base.len() as int) == base);
        assert forall|i: int| 0 <= i < base.len() implies log[i] == base[i] by {
            assert(log.subrange(0, base.len() as int)[i] == log[i]);
        }
    }
}

/// Monotonic ids without gaps, publication after publication: the first
/// event of a publication carries the id after the last event of the
/// publication before it.
pub proof fn law_ids_continue(
    last: TimSpace,
    last_storage: TimStorage,
    mid: TimSpace,
    mid_storage: TimStorage,
    first: TimSpace,
    first_storage: TimStorage,
    data1: EventData,
    now1: Timestamp,
    data2: EventData,
    now2: Timestamp,
)
    requires
        mid.published(&mid_storage, &first, &first_storage, data1, now1),
        last.published(&last_storage, &mid, &mid_storage, data2, now2),
    ensures
        last_storage.events()[mid_storage.events().len() as int].metadata.id
            == mid_storage.events().last().metadata.id + 1,
        last_storage.events()[mid_storage.events().len() as int].data == data2,
{
    law_publication_ids(mid, mid_storage, first, first_storage, data1, now1);
    law_publication_ids(last, last_storage, mid, mid_storage, data2, now2);
}

/// A timeline without gaps stays without gaps: where the counter is the id
/// of the last event, or the timeline is empty, a publication leaves a
/// timeline whose ids rise by one, and the counter at its last id.
pub proof fn law_gap_free(
    after: TimSpace,
    storage: TimStorage,
    before: TimSpace,
    stored: TimStorage,
    data: EventData,
    now: Timestamp,
)
    requires
        gap_free(stored.events()),
        stored.events().len() > 0 ==> before.counter() == stored.events().last().metadata.id,
        after.published(&storage, &before, &stored, data, now),
    ensures
        gap_free(storage.events()),
        after.counter() == storage.events().last().metadata.id,
{
    law_publication_ids(after, storage, before, stored, data, now);
    let log = storage.events();
    let base = stored.events();
    assert forall|i: int| 0 <= i < log.len() implies (#[trigger] log[i]).metadata.id
        == log[0].metadata.id + i by {
        if base.len() > 0 {
            assert(log.subrange(0, base.len() as int)[0] == log[0]);
            assert(base.last() == base[base.len() - 1]);
            if i < base.len() {
                assert(log.subrange(0, base.len() as int)[i] == log[i]);
            }
        }
    }
}

/// Restart continuity: a space that was started over a storage gives its
/// first event an id above every id of the timeline.
pub proof fn law_restart_continuity(
    after: TimSpace,
    storage: TimStorage,
    started: TimSpace,
    stored: TimStorage,
    data: EventData,
    now: Timestamp,
)
    requires
        started.inv(&stored),
        after.published(&storage, &started, &stored, data, now),
    ensures
        forall|id: u64|
            (#[trigger] stored.event_at(id)).is_some() ==> id
                < storage.events()[stored.events().len() as int].metadata.id,
        started.counter() == stored.last_event_id() ==> storage.events()[stored.events().len() as int].metadata.id
            == stored.last_event_id() + 1,
{
    stored.lemma_last_event_id();
    law_publication_ids(after, storage, started, stored, data, now);
}

/// Durability: every event of the timeline is read back under its id as it
/// was stored, and nothing else is read under an id. An event is handed to
/// subscribers only once the timeline holds it, so a subscriber can read
/// back whatever it was handed.
pub proof fn law_stored_events_are_read_back(storage: TimStorage)
    requires
        storage.wf(),
    ensures
        forall|i: int|
            0 <= i < storage.events().len() ==> storage.event_at(
                (#[trigger] storage.events()[i]).metadata.id,
            ) == Some(storage.events()[i]),
        forall|id: u64|
            (#[trigger] storage.event_at(id)).is_some() ==> storage.event_at(
                id,
            ).unwrap().metadata.id == id && storage.events().contains(storage.event_at(id).unwrap()),
{
    storage.lemma_events();
}

/// Self-filter: an event of the participant `origin` is meant for a
/// subscription exactly where the subscription belongs to somebody else or
/// asks for its owner's own events; an event of nobody is meant for all.
pub proof fn law_self_filter(subs: Seq<Subscriber>, origin: Option<u64>)
    requires
        crate::tim_space::registry_ok(subs),
    ensures
        forall|i: int|
            0 <= i < selected(subs, origin).len() ==> (#[trigger] selected(
                subs,
                origin,
            )[i]).receive_own_messages || origin != Some(selected(subs, origin)[i].session.timite_id),
        forall|i: int|
            0 <= i < subs.len() && ((#[trigger] subs[i]).receive_own_messages || origin != Some(
                subs[i].session.timite_id,
            )) ==> selected(subs, origin).contains(subs[i]),
        origin.is_none() ==> selected(subs, origin) == subs,
{
    let meant = |s: Subscriber| deliverable(s, origin);
    lemma_filter_registry(subs, meant);
    assert forall|i: int| 0 <= i < selected(subs, origin).len() implies (#[trigger] selected(
        subs,
        origin,
    )[i]).receive_own_messages || origin != Some(
        selected(subs, origin)[i].session.timite_id,
    ) by {
        assert(meant(selected(subs, origin)[i]));
    }
    assert forall|i: int|
        0 <= i < subs.len() && ((#[trigger] subs[i]).receive_own_messages || origin != Some(
            subs[i].session.timite_id,
        )) implies selected(subs, origin).contains(subs[i]) by {
        assert(meant(subs[i]));
    }
    if origin.is_none() {
        assert forall|i: int| 0 <= i < subs.len() implies meant(#[trigger] subs[i]) by {}
        lemma_filter_all(subs, meant);
    }
}

/// Presence, arrivals: a subscription publishes the arrival of its
/// participant exactly where the participant had no subscription that was
/// still open, and then as the first new event, once.
pub proof fn law_arrival(
    after: TimSpace,
    storage: TimStorage,
    before: TimSpace,
    stored: TimStorage,
    joined: TimSpace,
    live: Seq<Subscriber>,
    receive_own: bool,
    session: crate::api::Session,
    timite: Timite,
    now: Timestamp,
)
    requires
        after.subscribed(&storage, &before, &stored, &joined, live, receive_own, session, timite, now),
    ensures
        present(live, timite.id) ==> storage.events() == stored.events(),
        !present(live, timite.id) ==> storage.events().len() > stored.events().len()
            && storage.events()[stored.events().len() as int] == event_of(
            before.counter() + 1,
            now,
            EventData::TimiteConnected(timite),
        ),
        forall|k: int|
            stored.events().len() < k < storage.events().len() ==> !((
            #[trigger] storage.events()[k]).data is TimiteConnected),
{
    if !present(live, timite.id) {
        let log = storage.events();
        let base = stored.events();
        let tail = log.skip(base.len() as int + 1);
        assert forall|k: int| base.len() < k < log.len() implies !((
        #[trigger] log[k]).data is TimiteConnected) by {
            assert(tail[k - base.len() - 1] == log[k]);
            assert(tail[k - base.len() - 1].data is TimiteDisconnected);
        }
    }
}

/// Presence, departures: after its first event a publication holds one
/// departure for each participant that was present before it and is not
/// after it, and no other event.
pub proof fn law_departures(
    after: TimSpace,
    storage: TimStorage,
    before: TimSpace,
    stored: TimStorage,
    data: EventData,
    now: Timestamp,
)
    requires
        after.published(&storage, &before, &stored, data, now),
    ensures
        forall|k: int|
            stored.events().len() < k < storage.events().len() ==> (
            #[trigger] storage.events()[k]).data is TimiteDisconnected,
        forall|a: int, b: int|
            stored.events().len() < a < b < storage.events().len() ==> crate::tim_space::leaver(
                storage.events()[a],
            ).id != crate::tim_space::leaver(storage.events()[b]).id,
        forall|id: u64|
            present(before.subscribers(), id) && !present(after.subscribers(), id) <==> exists|
                k: int,
            |
                stored.events().len() < k < storage.events().len() && crate::tim_space::leaver(
                    #[trigger] storage.events()[k],
                ).id == id,
{
    let log = storage.events();
    let base = stored.events();
    let n = base.len() as int;
    let tail = log.skip(n + 1);
    let gone = leavers(tail);
    assert forall|k: int| n < k < log.len() implies (#[trigger] log[k]).data is TimiteDisconnected by {
        assert(tail[k - n - 1] == log[k]);
    }
    assert forall|a: int, b: int| n < a < b < log.len() implies crate::tim_space::leaver(log[a]).id
        != crate::tim_space::leaver(log[b]).id by {
        assert(gone[a - n - 1] == crate::tim_space::leaver(log[a]));
        assert(gone[b - n - 1] == crate::tim_space::leaver(log[b]));
    }
    assert forall|id: u64|
        present(before.subscribers(), id) && !present(after.subscribers(), id) <==> exists|k: int|
            n < k < log.len() && crate::tim_space::leaver(#[trigger] log[k]).id == id by {
        assert(!lists(Seq::<Timite>::empty(), id));
        if present(before.subscribers(), id) && !present(after.subscribers(), id) {
            assert(lists(gone, id) || lists(Seq::<Timite>::empty(), id));
            let i = choose|i: int| 0 <= i < gone.len() && (#[trigger] gone[i]).id == id;
            assert(crate::tim_space::leaver(log[i + n + 1]).id == id);
        }
        if exists|k: int| n < k < log.len() && crate::tim_space::leaver(#[trigger] log[k]).id == id {
            let k = choose|k: int|
                n < k < log.len() && crate::tim_space::leaver(#[trigger] log[k]).id == id;
            assert(gone[k - n - 1].id == id);
            assert(lists(gone, id));
        }
    }
}

/// In a timeline in rising order the events from an id on are its end.
pub proof fn lemma_events_from(log: Seq<SpaceEvent>, start: u64, k: int)
    requires
        0 <= k <= log.len(),
        forall|i: int| 0 <= i < k ==> (#[trigger] log[i]).metadata.id < start,
        forall|i: int| k <= i < log.len() ==> (#[trigger] log[i]).metadata.id >= start,
    ensures
        events_from(log, start) == log.subrange(k, log.len() as int),
{
    let idf = event_idf();
    let wanted = |v: SpaceEvent| idf(v) >= start;
    let head = log.subrange(0, k);
    let rest = log.subrange(k, log.len() as int);
    assert(log =~= head + rest);
    Seq::filter_distributes_over_add(head, rest, wanted);
    assert forall|i: int| 0 <= i < rest.len() implies wanted(#[trigger] rest[i]) by {
        assert(rest[i] == log[i + k]);
    }
    lemma_filter_all(rest, wanted);
    assert(head.filter(wanted).len() == 0) by {
        if head.filter(wanted).len() > 0 {
            let x = head.filter(wanted)[0];
            lemma_filtered_member(head, wanted, 0);
            assert(wanted(x));
            let j = choose|j: int| 0 <= j < head.len() && head[j] == x;
            assert(log[j] == x);
        }
    }
    assert(head.filter(wanted) =~= Seq::<SpaceEvent>::empty());
    assert(from_id(log, idf, start) =~= rest);
}

/// What passes a filter was in the sequence.
pub proof fn lemma_filtered_member<A>(s: Seq<A>, pred: spec_fn(A) -> bool, i: int)
    requires
        0 <= i < s.filter(pred).len(),
    ensures
        s.contains(s.filter(pred)[i]),
        pred(s.filter(pred)[i]),
    decreases s.len(),
{
    reveal(Seq::filter);
    if s.len() > 0 {
        let head = s.drop_last();
        let fh = head.filter(pred);
        if i < fh.len() {
            lemma_filtered_member(head, pred, i);
            let j = choose|j: int| 0 <= j < head.len() && head[j] == fh[i];
            assert(s[j] == fh[i]);
        } else {
            assert(s[s.len() - 1] == s.filter(pred)[i]);
        }
    }
}

/// Timeline, the tail: over a timeline without gaps, a page with offset 0
/// is the last `size` events, or all of them where there are fewer, in the
/// order of the timeline.
pub proof fn law_timeline_tail(log: Seq<SpaceEvent>, size: u32)
    requires
        gap_free(log),
        size > 0,
    ensures
        timeline_page(log, 0, size) == if log.len() <= size {
            log
        } else {
            log.subrange(log.len() - size, log.len() as int)
        },
{
    let n = log.len() as int;
    if n > 0 {
        let first = log[0].metadata.id as int;
        let last = log.last().metadata.id;
        assert(last == first + n - 1);
        let start = tail_start(last, size);
        let k: int = if n <= size {
            0
        } else {
            n - size
        };
        assert forall|i: int| 0 <= i < k implies (#[trigger] log[i]).metadata.id < start by {}
        assert forall|i: int| k <= i < n implies (#[trigger] log[i]).metadata.id >= start by {}
        lemma_events_from(log, start, k);
        assert(log.subrange(0, n) =~= log);
    }
}

/// Timeline, from an id on: over a timeline in rising order, a page with an
/// offset above 0 holds events of the timeline with ids from the offset on,
/// in rising order, at most `size` of them, and none is left out before the
/// page is full.
pub proof fn law_timeline_from(log: Seq<SpaceEvent>, offset: u64, size: u32)
    requires
        ascending(log, event_idf()),
        offset > 0,
    ensures
        timeline_page(log, offset, size).len() <= size,
        ascending(timeline_page(log, offset, size), event_idf()),
        forall|i: int|
            0 <= i < timeline_page(log, offset, size).len() ==> log.contains(
                #[trigger] timeline_page(log, offset, size)[i],
            ) && timeline_page(log, offset, size)[i].metadata.id >= offset,
        timeline_page(log, offset, size).len() < size ==> forall|i: int|
            0 <= i < log.len() && (#[trigger] log[i]).metadata.id >= offset ==> timeline_page(
                log,
                offset,
                size,
            ).contains(log[i]),
{
    let idf = event_idf();
    let k = first_at_least(log, offset);
    lemma_first_at_least(log, offset);
    lemma_events_from(log, offset, k);
    let all = log.subrange(k, log.len() as int);
    let page = timeline_page(log, offset, size);
    if size > 0 {
        assert(page == first_n(all, size as int));
        assert forall|i: int| 0 <= i < page.len() implies log.contains(#[trigger] page[i])
            && page[i].metadata.id >= offset by {
            assert(page[i] == log[k + i]);
        }
        assert forall|i: int, j: int| #![trigger page[i], page[j]] 0 <= i < j < page.len() implies idf(
            page[i],
        ) < idf(page[j]) by {
            assert(page[i] == log[k + i] && page[j] == log[k + j]);
            assert(idf(log[k + i]) < idf(log[k + j]));
        }
        if page.len() < size {
            assert(page == all);
            assert forall|i: int|
                0 <= i < log.len() && (#[trigger] log[i]).metadata.id >= offset implies page.contains(
                log[i],
            ) by {
                assert(i >= k);
                assert(all[i - k] == log[i]);
            }
        }
    }
}

/// The number of events of `log` before the first with an id of at least `id`.
pub open spec fn first_at_least(log: Seq<SpaceEvent>, id: u64) -> int
    decreases log.len(),
{
    if log.len() == 0 {
        0
    } else if log.last().metadata.id >= id {
        first_at_least(log.drop_last(), id)
    } else {
        log.len() as int
    }
}

/// In a timeline in rising order the events before `first_at_least` have
/// smaller ids, and no other has.
pub proof fn lemma_first_at_least(log: Seq<SpaceEvent>, id: u64)
    requires
        ascending(log, event_idf()),
    ensures
        0 <= first_at_least(log, id) <= log.len(),
        forall|i: int| 0 <= i < first_at_least(log, id) ==> (#[trigger] log[i]).metadata.id < id,
        forall|i: int|
            first_at_least(log, id) <= i < log.len() ==> (#[trigger] log[i]).metadata.id >= id,
    decreases log.len(),
{
    let idf = event_idf();
    if log.len() > 0 {
        let head = log.drop_last();
        assert forall|i: int, j: int| #![trigger head[i], head[j]] 0 <= i < j < head.len() implies idf(
            head[i],
        ) < idf(head[j]) by {
            assert(head[i] == log[i] && head[j] == log[j]);
            assert(idf(log[i]) < idf(log[j]));
        }
        lemma_first_at_least(head, id);
        if log.last().metadata.id >= id {
            let k = first_at_least(head, id);
            assert forall|i: int| 0 <= i < k implies (#[trigger] log[i]).metadata.id < id by {
                assert(head[i] == log[i]);
            }
            assert forall|i: int| k <= i < log.len() implies (#[trigger] log[i]).metadata.id
                >= id by {
                if i < head.len() {
                    assert(head[i] == log[i]);
                }
            }
        } else {
            assert forall|i: int| 0 <= i < log.len() implies (#[trigger] log[i]).metadata.id < id by {
                if i < log.len() - 1 {
                    assert(idf(log[i]) < idf(log[log.len() - 1]));
                }
            }
        }
    }
}

} // verus!
