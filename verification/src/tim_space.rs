//! The space: the one authority for the order of events, their place in the
//! timeline, who is present, and what each subscriber is handed.

pub mod registry;

use vstd::prelude::*;
use tokio::sync::mpsc::{Receiver, Sender};
use crate::api::{
    CallAbility, CallAbilityOutcome, EventData, EventMetadata, Message, Session, SpaceEvent,
    SubscribeToSpaceReq, Timestamp, Timite,
};
use crate::channel::{chan_is_closed, chan_try_send, open_channel};
use crate::kvstore::lemma_filter_push;
use crate::tim_space::registry::{
    lemma_filter_registry, lemma_lists_concat, lemma_lists_drop_last, lemma_lists_push,
    lemma_owners, lemma_survivors, lemma_survivors_transitive, lemma_vanished_count,
    lemma_vanished_none, lemma_vanished_push, survivors_of,
};
use crate::tim_storage::{TimStorage, TimStorageError};

verus! {

/// The number of events that a subscriber's queue holds.
pub const BUFFER_SIZE: usize = 10;

/// What the space can report.
#[derive(Debug, PartialEq, Eq)]
pub enum TimSpaceError {
    LockPoisoned(String),
    ChannelError(String),
    Timeline(TimStorageError),
}

/// One live subscription: whose it is, whether it wants its owner's own
/// events, and the queue that leads to its reader.
pub struct Subscriber {
    pub receive_own_messages: bool,
    pub chan: Sender<SpaceEvent>,
    pub session: Session,
    pub timite: Timite,
}

/// What became of one event at one subscriber that it was meant for.
#[derive(Debug, PartialEq, Eq)]
pub struct Delivery {
    pub session_key: String,
    pub delivered: bool,
}

/// The participant `id` has a subscription among `subs`.
pub open spec fn present(subs: Seq<Subscriber>, id: u64) -> bool {
    exists|i: int| 0 <= i < subs.len() && (#[trigger] subs[i]).timite.id == id
}

/// A subscription of the session `key` is among `subs`.
pub open spec fn has_session(subs: Seq<Subscriber>, key: Seq<char>) -> bool {
    exists|i: int| 0 <= i < subs.len() && (#[trigger] subs[i]).session.key@ == key
}

/// `key` is among `keys`.
pub open spec fn names(keys: Seq<String>, key: Seq<char>) -> bool {
    exists|i: int| 0 <= i < keys.len() && (#[trigger] keys[i])@ == key
}

/// An event of `origin` is meant for `sub`: every event is, but the owner's
/// own events where the subscription does not want them.
pub open spec fn deliverable(sub: Subscriber, origin: Option<u64>) -> bool {
    !(origin == Some(sub.session.timite_id) && !sub.receive_own_messages)
}

/// The subscriptions that an event of `origin` is meant for, in registry order.
pub open spec fn selected(subs: Seq<Subscriber>, origin: Option<u64>) -> Seq<Subscriber> {
    subs.filter(|s: Subscriber| deliverable(s, origin))
}

/// The subscriptions that survive the removal of the sessions `gone`.
pub open spec fn without(subs: Seq<Subscriber>, gone: Seq<String>) -> Seq<Subscriber> {
    subs.filter(|s: Subscriber| !names(gone, s.session.key@))
}

/// The sessions of the subscriptions that `flags` marks, in registry order:
/// a subscription is marked where `flags` holds `true` at its place.
pub open spec fn marked(subs: Seq<Subscriber>, flags: Seq<bool>) -> Seq<String>
    decreases subs.len(),
{
    if subs.len() == 0 {
        Seq::empty()
    } else {
        let rest = marked(subs.drop_last(), flags);
        if subs.len() <= flags.len() && flags[subs.len() - 1] {
            rest.push(subs.last().session.key)
        } else {
            rest
        }
    }
}

/// No session has two subscriptions, and every subscription belongs to the
/// participant of its session.
pub open spec fn registry_ok(subs: Seq<Subscriber>) -> bool {
    &&& forall|i: int, j: int|
        #![trigger subs[i], subs[j]]
        0 <= i < j < subs.len() ==> subs[i].session.key@ != subs[j].session.key@
    &&& forall|i: int| #![trigger subs[i]] 0 <= i < subs.len() ==> subs[i].session.timite_id == subs[i].timite.id
}

/// A participant of `list` has the id `id`.
pub open spec fn lists(list: Seq<Timite>, id: u64) -> bool {
    exists|i: int| 0 <= i < list.len() && (#[trigger] list[i]).id == id
}

/// No participant occurs twice in `list`.
pub open spec fn distinct(list: Seq<Timite>) -> bool {
    forall|i: int, j: int| #![trigger list[i], list[j]] 0 <= i < j < list.len() ==> list[i].id != list[j].id
}

/// Of the participants `before`, in their order and each once, those without
/// a subscription among `after`.
pub open spec fn vanished(before: Seq<Timite>, after: Seq<Subscriber>) -> Seq<Timite>
    decreases before.len(),
{
    if before.len() == 0 {
        Seq::empty()
    } else {
        let rest = vanished(before.drop_last(), after);
        let t = before.last();
        if present(after, t.id) || lists(rest, t.id) {
            rest
        } else {
            rest.push(t)
        }
    }
}

/// The participants of some subscriptions, in registry order.
pub open spec fn owners(subs: Seq<Subscriber>) -> Seq<Timite> {
    subs.map_values(|s: Subscriber| s.timite)
}

/// `vanished` lists each participant once, and exactly those of `before`
/// that have no subscription among `after`.
pub proof fn lemma_vanished(before: Seq<Timite>, after: Seq<Subscriber>)
    ensures
        distinct(vanished(before, after)),
        vanished(before, after).len() <= before.len(),
        forall|id: u64|
            #[trigger] lists(vanished(before, after), id) <==> lists(before, id) && !present(
                after,
                id,
            ),
        forall|i: int|
            0 <= i < vanished(before, after).len() ==> before.contains(
                #[trigger] vanished(before, after)[i],
            ),
    decreases before.len(),
{
    let out = vanished(before, after);
    if before.len() == 0 {
        assert forall|id: u64| #[trigger] lists(out, id) <==> lists(before, id) && !present(
            after,
            id,
        ) by {}
    } else {
        let head = before.drop_last();
        let rest = vanished(head, after);
        let t = before.last();
        lemma_vanished(head, after);
        assert forall|id: u64| #[trigger] lists(out, id) <==> lists(before, id) && !present(
            after,
            id,
        ) by {
            if lists(out, id) {
                let i = choose|i: int| 0 <= i < out.len() && (#[trigger] out[i]).id == id;
                if i < rest.len() {
                    assert(rest[i].id == id);
                    assert(lists(rest, id));
                    let k = choose|k: int| 0 <= k < head.len() && (#[trigger] head[k]).id == id;
                    assert(before[k].id == id);
                } else {
                    assert(out[i] == t);
                    assert(before[before.len() - 1].id == id);
                }
            }
            if lists(before, id) && !present(after, id) {
                let k = choose|k: int| 0 <= k < before.len() && (#[trigger] before[k]).id == id;
                if k < head.len() {
                    assert(head[k].id == id);
                    assert(lists(head, id));
                    assert(lists(rest, id));
                    let i = choose|i: int| 0 <= i < rest.len() && (#[trigger] rest[i]).id == id;
                    assert(out[i].id == id);
                } else {
                    if lists(rest, id) {
                        let i = choose|i: int| 0 <= i < rest.len() && (#[trigger] rest[i]).id == id;
                        assert(out[i].id == id);
                    } else {
                        assert(out[out.len() - 1].id == id);
                    }
                }
            }
        }
        assert forall|i: int| 0 <= i < out.len() implies before.contains(#[trigger] out[i]) by {
            if i < rest.len() {
                assert(head.contains(rest[i]));
                let k = choose|k: int| 0 <= k < head.len() && head[k] == rest[i];
                assert(before[k] == out[i]);
            } else {
                assert(before[before.len() - 1] == out[i]);
            }
        }
        assert forall|i: int, j: int| #![trigger out[i], out[j]] 0 <= i < j < out.len() implies out[i].id
            != out[j].id by {
            if j >= rest.len() {
                assert(out[j] == t);
                assert(rest[i].id != t.id) by {
                    if rest[i].id == t.id {
                        assert(lists(rest, t.id));
                    }
                }
            } else {
                assert(rest[i].id != rest[j].id);
            }
        }
    }
}

/// The participant that a departure announces.
pub open spec fn leaver(event: SpaceEvent) -> Timite {
    match event.data {
        EventData::TimiteDisconnected(timite) => timite,
        EventData::TimiteConnected(timite) => timite,
        _ => arbitrary(),
    }
}

/// The participants that some departures announce, in their order.
pub open spec fn leavers(events: Seq<SpaceEvent>) -> Seq<Timite> {
    events.map_values(|e: SpaceEvent| leaver(e))
}

/// The events carry consecutive ids from `first` on and the time `now`.
pub open spec fn stamped(events: Seq<SpaceEvent>, first: int, now: Timestamp) -> bool {
    forall|k: int|
        0 <= k < events.len() ==> first + k <= u64::MAX && (#[trigger] events[k]).metadata
            == (EventMetadata { id: (first + k) as u64, emitted_at: now })
}

/// The events are departures, one for each participant that was present in
/// `before` and is not in `after` or still waits in `queue` to be announced,
/// and for nobody else.
pub open spec fn announces(
    events: Seq<SpaceEvent>,
    queue: Seq<Timite>,
    before: Seq<Subscriber>,
    after: Seq<Subscriber>,
) -> bool {
    &&& forall|k: int| 0 <= k < events.len() ==> (#[trigger] events[k]).data is TimiteDisconnected
    &&& distinct(leavers(events))
    &&& distinct(queue)
    &&& forall|id: u64| lists(leavers(events), id) ==> !lists(queue, id)
    &&& forall|id: u64|
        lists(leavers(events), id) || lists(queue, id) <==> present(before, id) && !present(
            after,
            id,
        )
}

/// The event that the space makes of `data` at the id `id` and the time `now`.
pub open spec fn event_of(id: int, now: Timestamp, data: EventData) -> SpaceEvent {
    SpaceEvent { metadata: EventMetadata { id: id as u64, emitted_at: now }, data }
}

/// The space.
pub struct TimSpace {
    upd_counter: u64,
    subscribers: Vec<Subscriber>,
}

impl TimSpace {
    /// The id of the event that was emitted last.
    pub closed spec fn counter(&self) -> u64 {
        self.upd_counter
    }

    /// The live subscriptions, in the order in which they were registered.
    pub closed spec fn subscribers(&self) -> Seq<Subscriber> {
        self.subscribers@
    }

    /// The registry is in order.
    pub open spec fn wf(&self) -> bool {
        registry_ok(self.subscribers())
    }

    /// The space is in order and its counter is not below any id of the
    /// timeline: the next event gets an id that the timeline does not hold.
    pub open spec fn inv(&self, storage: &TimStorage) -> bool {
        &&& self.wf()
        &&& storage.wf()
        &&& storage.last_event_id() <= self.counter()
    }

    /// A space without subscribers that continues the timeline of `storage`:
    /// its counter is the largest id that the timeline holds.
    pub fn new(storage: &TimStorage) -> (space: TimSpace)
        requires
            storage.wf(),
        ensures
            space.inv(storage),
            space.counter() == storage.last_event_id(),
            space.subscribers().len() == 0,
    {
        let max_event_id = storage.fetch_max_event_id();
        TimSpace { upd_counter: max_event_id, subscribers: Vec::new() }
    }

    /// The number of live subscriptions.
    pub fn subscriber_count(&self) -> (n: usize)
        ensures
            n == self.subscribers().len(),
    {
        self.subscribers.len()
    }

    /// The id of the event that was emitted last.
    pub fn last_event_id(&self) -> (id: u64)
        ensures
            id == self.counter(),
    {
        self.upd_counter
    }

    /// Tells whether the participant `timite_id` has a live subscription.
    pub fn is_present(&self, timite_id: u64) -> (r: bool)
        ensures
            r == present(self.subscribers(), timite_id),
    {
        let mut i: usize = 0;
        while i < self.subscribers.len()
            invariant
                i <= self.subscribers.len(),
                forall|j: int| 0 <= j < i ==> (#[trigger] self.subscribers@[j]).timite.id != timite_id,
            decreases self.subscribers.len() - i,
        {
            if self.subscribers[i].timite.id == timite_id {
                return true;
            }
            i += 1;
        }
        false
    }

    /// Hands `event` to every subscription that it is meant for, without
    /// waiting, and reports for each of them, in registry order, whether its
    /// queue took the event. A closed queue and a full one do not.
    ///
    /// The event must be in the timeline already: nothing is delivered that
    /// is not stored.
    pub fn broadcast_event(
        &self,
        storage: &TimStorage,
        event: &SpaceEvent,
        skip_sender: Option<u64>,
    ) -> (report: Vec<Delivery>)
        requires
            storage.event_at(event.metadata.id) == Some(*event),
        ensures
            report@.len() == selected(self.subscribers(), skip_sender).len(),
            forall|i: int|
                0 <= i < report@.len() ==> (#[trigger] report@[i]).session_key@ == selected(
                    self.subscribers(),
                    skip_sender,
                )[i].session.key@,
    {
        let ghost meant = |s: Subscriber| deliverable(s, skip_sender);
        let mut report: Vec<Delivery> = Vec::new();
        let mut i: usize = 0;
        assert(self.subscribers@.subrange(0, 0) =~= Seq::<Subscriber>::empty());
        while i < self.subscribers.len()
            invariant
                i <= self.subscribers.len(),
                meant == |s: Subscriber| deliverable(s, skip_sender),
                report@.len() == self.subscribers@.subrange(0, i as int).filter(meant).len(),
                forall|j: int|
                    0 <= j < report@.len() ==> (#[trigger] report@[j]).session_key@
                        == self.subscribers@.subrange(0, i as int).filter(meant)[j].session.key@,
            decreases self.subscribers.len() - i,
        {
            let sub = &self.subscribers[i];
            proof {
                let subs = self.subscribers@;
                assert(subs.subrange(0, i + 1) =~= subs.subrange(0, i as int).push(subs[i as int]));
                lemma_filter_push(subs.subrange(0, i as int), subs[i as int], meant);
            }
            if is_deliverable(sub, skip_sender) {
                let delivered = !chan_is_closed(&sub.chan) && chan_try_send(
                    &sub.chan,
                    event.clone(),
                );
                report.push(Delivery { session_key: sub.session.key.clone(), delivered });
            }
            i += 1;
        }
        assert(self.subscribers@.subrange(0, i as int) =~= self.subscribers@);
        report
    }

    /// What one publication does to the space and the timeline: the event of
    /// `data` goes to the end of the timeline under the id after `before`'s
    /// counter, followed by one departure for each participant that lost its
    /// last subscription while the events were handed out; the ids are
    /// consecutive, the counter is the id of the last one, and no
    /// subscription is new.
    pub open spec fn published(
        &self,
        storage: &TimStorage,
        before: &TimSpace,
        stored: &TimStorage,
        data: EventData,
        now: Timestamp,
    ) -> bool {
        let log = storage.events();
        let base = stored.events();
        &&& log.len() > base.len()
        &&& log.subrange(0, base.len() as int) == base
        &&& log[base.len() as int] == event_of(before.counter() + 1, now, data)
        &&& stamped(log.skip(base.len() as int), before.counter() + 1, now)
        &&& announces(
            log.skip(base.len() as int + 1),
            Seq::empty(),
            before.subscribers(),
            self.subscribers(),
        )
        &&& self.counter() == before.counter() + (log.len() - base.len())
        &&& survivors_of(self.subscribers(), before.subscribers())
    }

    /// The participants of the live subscriptions, in registry order.
    pub fn owners_of(&self) -> (list: Vec<Timite>)
        ensures
            list@ == owners(self.subscribers()),
    {
        let mut list: Vec<Timite> = Vec::new();
        let mut i: usize = 0;
        while i < self.subscribers.len()
            invariant
                i <= self.subscribers.len(),
                list@.len() == i,
                forall|j: int| 0 <= j < i ==> list@[j] == self.subscribers@[j].timite,
            decreases self.subscribers.len() - i,
        {
            list.push(self.subscribers[i].timite.clone());
            i += 1;
        }
        assert(list@ =~= owners(self.subscribers()));
        list
    }

    /// Removes the subscriptions of the sessions `disconnected` and returns
    /// the participants that lost their last subscription by it, each once.
    pub fn prune_disconnected(&mut self, disconnected: &Vec<String>) -> (removed: Vec<Timite>)
        requires
            old(self).wf(),
        ensures
            final(self).wf(),
            final(self).counter() == old(self).counter(),
            final(self).subscribers() == without(old(self).subscribers(), disconnected@),
            removed@ == vanished(owners(old(self).subscribers()), final(self).subscribers()),
            removed@.len() + final(self).subscribers().len() <= old(self).subscribers().len(),
    {
        let all = self.owners_of();
        let ghost before = self.subscribers@;
        let ghost keep = |s: Subscriber| !names(disconnected@, s.session.key@);
        let ghost mut k: int = 0;
        let mut i: usize = 0;
        assert(before.subrange(0, 0) =~= Seq::<Subscriber>::empty());
        assert(self.subscribers@.subrange(0, 0) =~= before.subrange(0, 0).filter(keep));
        assert(self.subscribers@.subrange(0, self.subscribers@.len() as int) =~= before.subrange(
            0,
            before.len() as int,
        ));
        while i < self.subscribers.len()
            invariant
                keep == |s: Subscriber| !names(disconnected@, s.session.key@),
                0 <= k <= before.len(),
                i <= self.subscribers.len(),
                self.subscribers@.len() - i == before.len() - k,
                self.subscribers@.subrange(0, i as int) == before.subrange(0, k).filter(keep),
                self.subscribers@.subrange(i as int, self.subscribers@.len() as int)
                    == before.subrange(k, before.len() as int),
                self.upd_counter == old(self).upd_counter,
            decreases self.subscribers.len() - i,
        {
            let ghost held = self.subscribers@;
            proof {
                assert(held[i as int] == held.subrange(i as int, held.len() as int)[0]);
                assert(held[i as int] == before[k]);
                assert(before.subrange(0, k + 1) =~= before.subrange(0, k).push(before[k]));
                lemma_filter_push(before.subrange(0, k), before[k], keep);
            }
            if names_key(disconnected, &self.subscribers[i].session.key) {
                let _ = self.subscribers.remove(i);
                proof {
                    let now = self.subscribers@;
                    assert(now.subrange(0, i as int) =~= held.subrange(0, i as int));
                    assert(now.subrange(i as int, now.len() as int) =~= held.subrange(
                        i as int,
                        held.len() as int,
                    ).subrange(1, held.len() - i));
                    assert(before.subrange(k, before.len() as int).subrange(1, before.len() - k)
                        =~= before.subrange(k + 1, before.len() as int));
                    k = k + 1;
                }
            } else {
                proof {
                    let now = self.subscribers@;
                    assert(now.subrange(0, i + 1) =~= now.subrange(0, i as int).push(now[i as int]));
                    assert(now.subrange(i + 1, now.len() as int) =~= held.subrange(
                        i as int,
                        held.len() as int,
                    ).subrange(1, held.len() - i));
                    assert(before.subrange(k, before.len() as int).subrange(1, before.len() - k)
                        =~= before.subrange(k + 1, before.len() as int));
                    k = k + 1;
                }
                i += 1;
            }
        }
        proof {
            assert(self.subscribers@.subrange(0, i as int) =~= self.subscribers@);
            assert(before.subrange(0, k) =~= before);
            lemma_filter_registry(before, keep);
            lemma_vanished_count(before, keep);
        }
        let mut removed: Vec<Timite> = Vec::new();
        let mut j: usize = 0;
        assert(all@.subrange(0, 0) =~= Seq::<Timite>::empty());
        while j < all.len()
            invariant
                j <= all.len(),
                removed@ == vanished(all@.subrange(0, j as int), self.subscribers@),
                all@ == owners(old(self).subscribers()),
                self.subscribers@ == without(old(self).subscribers(), disconnected@),
            decreases all.len() - j,
        {
            proof {
                assert(all@.subrange(0, j + 1) =~= all@.subrange(0, j as int).push(all@[j as int]));
                lemma_vanished_push(all@.subrange(0, j as int), all@[j as int], self.subscribers@);
            }
            if !self.is_present(all[j].id) && !has_id(&removed, all[j].id) {
                removed.push(all[j].clone());
            }
            j += 1;
        }
        assert(all@.subrange(0, j as int) =~= all@);
        removed
    }

    /// Emits one event: gives it the next id, appends it to the timeline,
    /// hands it out, removes the subscriptions whose queue did not take it,
    /// and returns the participants that lost their last subscription by it.
    /// Where no id is left, nothing happens and the error says so.
    pub fn emit(
        &mut self,
        storage: &mut TimStorage,
        data: EventData,
        origin: Option<u64>,
        now: Timestamp,
    ) -> (r: Result<Vec<Timite>, TimSpaceError>)
        requires
            old(self).inv(old(storage)),
        ensures
            final(self).inv(final(storage)),
            final(storage).same_but_events(*old(storage)),
            survivors_of(final(self).subscribers(), old(self).subscribers()),
            final(self).subscribers().len() <= old(self).subscribers().len(),
            forall|i: int|
                0 <= i < old(self).subscribers().len() && !deliverable(
                    #[trigger] old(self).subscribers()[i],
                    origin,
                ) ==> final(self).subscribers().contains(old(self).subscribers()[i]),
            match r {
                Ok(removed) => {
                    &&& old(self).counter() < u64::MAX
                    &&& final(self).counter() == old(self).counter() + 1
                    &&& final(storage).events() == old(storage).events().push(
                        event_of(old(self).counter() + 1, now, data),
                    )
                    &&& removed@ == vanished(
                        owners(old(self).subscribers()),
                        final(self).subscribers(),
                    )
                    &&& removed@.len() + final(self).subscribers().len() <= old(
                        self,
                    ).subscribers().len()
                },
                Err(e) => {
                    &&& old(self).counter() == u64::MAX
                    &&& e is Timeline
                    &&& final(self).counter() == old(self).counter()
                    &&& final(self).subscribers() == old(self).subscribers()
                    &&& final(storage).events() == old(storage).events()
                },
            },
    {
        if self.upd_counter == u64::MAX {
            proof {
                assert forall|i: int| 0 <= i < self.subscribers@.len() implies self.subscribers@.contains(
                    #[trigger] self.subscribers@[i],
                ) by {}
            }
            return Err(
                TimSpaceError::Timeline(
                    TimStorageError::Timeline(String::from_str("the event ids are used up")),
                ),
            );
        }
        let upd_id = self.upd_counter + 1;
        self.upd_counter = upd_id;
        let event = SpaceEvent { metadata: event_metadata(upd_id, now), data };
        proof {
            storage.lemma_last_event_id();
        }
        match storage.store_space_event(&event) {
            Ok(_) => {},
            Err(e) => {
                return Err(TimSpaceError::Timeline(e));
            },
        }
        let report = self.broadcast_event(storage, &event, origin);
        let broken = broken_sessions(&report);
        let ghost before = self.subscribers@;
        let removed = self.prune_disconnected(&broken);
        proof {
            let keep = |s: Subscriber| !names(broken@, s.session.key@);
            let meant = |s: Subscriber| deliverable(s, origin);
            let after = self.subscribers@;
            lemma_filter_registry(before, keep);
            lemma_filter_registry(before, meant);
            assert forall|i: int| 0 <= i < before.len() && !deliverable(
                #[trigger] before[i],
                origin,
            ) implies after.contains(before[i]) by {
                if names(broken@, before[i].session.key@) {
                    let key = before[i].session.key@;
                    let r = choose|r: int|
                        0 <= r < report@.len() && (#[trigger] report@[r]).session_key@ == key
                            && !report@[r].delivered;
                    let chosen = selected(before, origin)[r];
                    assert(before.contains(chosen));
                    let c = choose|c: int| 0 <= c < before.len() && before[c] == chosen;
                    assert(meant(chosen));
                    assert(before[c].session.key@ == before[i].session.key@);
                    if c < i {
                        assert(before[c].session.key@ != before[i].session.key@);
                    } else if i < c {
                        assert(before[i].session.key@ != before[c].session.key@);
                    }
                }
                assert(keep(before[i]));
            }
            assert(storage.events().last() == event);
        }
        Ok(removed)
    }

    /// Announces the departure of each participant of `removed`, and of
    /// those that lose their last subscription while the departures are
    /// handed out, each through `emit`, until nobody is left to announce.
    fn publish_disconnected_batch(
        &mut self,
        storage: &mut TimStorage,
        removed: Vec<Timite>,
        now: Timestamp,
        Ghost(before): Ghost<Seq<Subscriber>>,
    ) -> (r: Result<(), TimSpaceError>)
        requires
            old(self).inv(old(storage)),
            survivors_of(old(self).subscribers(), before),
            announces(Seq::empty(), removed@, before, old(self).subscribers()),
        ensures
            final(self).inv(final(storage)),
            final(storage).same_but_events(*old(storage)),
            survivors_of(final(self).subscribers(), before),
            survivors_of(final(self).subscribers(), old(self).subscribers()),
            final(self).subscribers().len() <= old(self).subscribers().len(),
            final(storage).events().len() >= old(storage).events().len(),
            final(storage).events().subrange(0, old(storage).events().len() as int) == old(
                storage,
            ).events(),
            removed@.len() == 0 ==> r is Ok && final(self).subscribers() == old(self).subscribers()
                && final(storage).events() == old(storage).events(),
            old(self).counter() + old(self).subscribers().len() + removed@.len() <= u64::MAX
                ==> r is Ok,
            match r {
                Ok(_) => {
                    &&& stamped(
                        final(storage).events().skip(old(storage).events().len() as int),
                        old(self).counter() + 1,
                        now,
                    )
                    &&& announces(
                        final(storage).events().skip(old(storage).events().len() as int),
                        Seq::empty(),
                        before,
                        final(self).subscribers(),
                    )
                    &&& final(self).counter() == old(self).counter() + (final(storage).events().len()
                        - old(storage).events().len())
                },
                Err(e) => e is Timeline && final(self).counter() == u64::MAX,
            },
    {
        let mut queue = removed;
        let ghost base = storage.events();
        let ghost start = self.upd_counter as int;
        let ghost first = self.subscribers@;
        proof {
            assert(storage.events().subrange(0, base.len() as int) =~= base);
            assert(storage.events().skip(base.len() as int) =~= Seq::<SpaceEvent>::empty());
            assert forall|i: int| 0 <= i < first.len() implies first.contains(#[trigger] first[i]) by {}
        }
        while queue.len() > 0
            invariant
                self.inv(storage),
                first == old(self).subscribers(),
                base == old(storage).events(),
                start == old(self).upd_counter,
                storage.same_but_events(*old(storage)),
                survivors_of(self.subscribers@, before),
                survivors_of(self.subscribers@, first),
                self.subscribers@.len() <= first.len(),
                storage.events().len() >= base.len(),
                storage.events().subrange(0, base.len() as int) == base,
                stamped(storage.events().skip(base.len() as int), start + 1, now),
                announces(storage.events().skip(base.len() as int), queue@, before, self.subscribers@),
                self.upd_counter == start + (storage.events().len() - base.len()),
                removed@.len() == 0 ==> queue@.len() == 0 && storage.events() == base
                    && self.subscribers@ == first,
                self.upd_counter + self.subscribers@.len() + queue@.len() <= start + first.len()
                    + removed@.len(),
            decreases self.subscribers@.len(), queue@.len(),
        {
            let ghost cur = self.subscribers@;
            let ghost log = storage.events();
            let ghost waiting = queue@;
            let timite = match queue.pop() {
                Some(timite) => timite,
                None => {
                    return Ok(());
                },
            };
            let mut more = match self.publish_timite_disconnected(storage, &timite, now) {
                Ok(removed) => removed,
                Err(e) => {
                    proof {
                        lemma_survivors_transitive(self.subscribers@, cur, before);
                        lemma_survivors_transitive(self.subscribers@, cur, first);
                        assert(storage.events().subrange(0, base.len() as int) =~= base);
                    }
                    return Err(e);
                },
            };
            proof {
                let next = self.subscribers@;
                let grown = storage.events();
                let goodbye = event_of(self.upd_counter as int, now, EventData::TimiteDisconnected(timite));
                let tail = log.skip(base.len() as int);
                let rest = waiting.drop_last();
                assert(queue@ =~= rest);
                assert(grown == log.push(goodbye));
                assert(grown.subrange(0, base.len() as int) =~= log.subrange(0, base.len() as int));
                assert(grown.skip(base.len() as int) =~= tail.push(goodbye));
                assert(leavers(tail.push(goodbye)) =~= leavers(tail).push(timite));
                lemma_survivors_transitive(next, cur, before);
                lemma_survivors_transitive(next, cur, first);
                lemma_survivors(next, cur);
                lemma_survivors(cur, before);
                lemma_vanished(owners(cur), next);
                lemma_owners(cur);
                lemma_lists_drop_last(waiting);
                lemma_lists_push(leavers(tail), timite);
                lemma_lists_concat(rest, more@);
                let said = leavers(tail);
                let gone = more@;
                assert(timite == waiting.last());
                assert(lists(waiting, timite.id)) by {
                    assert(waiting[waiting.len() - 1].id == timite.id);
                }
                assert(!lists(said, timite.id));
                assert forall|k: int| 0 <= k < tail.push(goodbye).len() implies (
                #[trigger] tail.push(goodbye)[k]).data is TimiteDisconnected by {
                    if k < tail.len() {
                        assert(tail[k].data is TimiteDisconnected);
                    }
                }
                assert forall|id: u64| lists(rest, id) implies !lists(gone, id) by {
                    assert(lists(waiting, id));
                    assert(lists(said, id) || lists(waiting, id));
                    assert(!present(cur, id));
                }
                assert(distinct(rest + gone));
                assert(distinct(said.push(timite)));
                assert forall|id: u64| lists(said.push(timite), id) implies !lists(
                    rest + gone,
                    id,
                ) by {
                    if lists(said, id) {
                        assert(!lists(waiting, id));
                        assert(lists(said, id) || lists(waiting, id));
                        assert(!present(cur, id));
                    } else {
                        assert(id == timite.id);
                        assert(lists(said, id) || lists(waiting, id));
                        assert(!present(cur, id));
                    }
                    assert(!lists(rest, id));
                    assert(!lists(gone, id));
                }
                assert forall|id: u64|
                    lists(said.push(timite), id) || lists(rest + gone, id) <==> present(before, id)
                        && !present(next, id) by {
                    if lists(said.push(timite), id) || lists(rest, id) {
                        assert(lists(said, id) || lists(waiting, id));
                        assert(present(before, id) && !present(cur, id));
                        if present(next, id) {
                            assert(present(cur, id));
                        }
                    }
                    if lists(gone, id) {
                        assert(present(cur, id) && !present(next, id));
                        assert(present(before, id));
                    }
                    if present(before, id) && !present(next, id) {
                        if present(cur, id) {
                            assert(lists(owners(cur), id));
                            assert(lists(gone, id));
                        } else {
                            assert(lists(said, id) || lists(waiting, id));
                        }
                    }
                }
                assert(announces(tail.push(goodbye), rest + gone, before, next));
            }
            queue.append(&mut more);
        }
        proof {
            assert(queue@ =~= Seq::<Timite>::empty());
        }
        Ok(())
    }

    /// Publishes `data` and then the departures that follow from it.
    fn publish(
        &mut self,
        storage: &mut TimStorage,
        data: EventData,
        origin: Option<u64>,
        now: Timestamp,
    ) -> (r: Result<(), TimSpaceError>)
        requires
            old(self).inv(old(storage)),
        ensures
            final(self).inv(final(storage)),
            final(storage).same_but_events(*old(storage)),
            survivors_of(final(self).subscribers(), old(self).subscribers()),
            match r {
                Ok(_) => final(self).published(final(storage), old(self), old(storage), data, now),
                Err(e) => {
                    &&& e is Timeline
                    &&& final(self).counter() == u64::MAX
                    &&& old(self).counter() + old(self).subscribers().len() >= u64::MAX
                    &&& old(self).counter() == u64::MAX ==> final(self).subscribers() == old(
                        self,
                    ).subscribers() && final(storage).events() == old(storage).events()
                },
            },
    {
        let ghost before = self.subscribers@;
        let ghost base = storage.events();
        let ghost start = self.upd_counter as int;
        let removed = match self.emit(storage, data, origin, now) {
            Ok(removed) => removed,
            Err(e) => {
                return Err(e);
            },
        };
        let ghost mid = storage.events();
        proof {
            lemma_vanished(owners(before), self.subscribers@);
            lemma_owners(before);
            assert(leavers(Seq::<SpaceEvent>::empty()) =~= Seq::<Timite>::empty());
        }
        let r = self.publish_disconnected_batch(storage, removed, now, Ghost(before));
        proof {
            let log = storage.events();
            assert(log.subrange(0, mid.len() as int) == mid);
            assert(log[base.len() as int] == mid[base.len() as int]);
            assert(log.subrange(0, base.len() as int) =~= mid.subrange(0, base.len() as int));
            assert(mid.subrange(0, base.len() as int) =~= base);
            if r is Ok {
                let tail = log.skip(mid.len() as int);
                assert(log.skip(base.len() as int + 1) =~= tail);
                assert forall|k: int| 0 <= k < log.skip(base.len() as int).len() implies start + 1 + k
                    <= u64::MAX && (#[trigger] log.skip(base.len() as int)[k]).metadata == (
                EventMetadata { id: (start + 1 + k) as u64, emitted_at: now }) by {
                    if k > 0 {
                        assert(log.skip(base.len() as int)[k] == tail[k - 1]);
                    }
                }
            }
        }
        r
    }

    /// Announces the arrival of `timite`: one `TimiteConnected` event, handed
    /// to every subscription, and the departures that follow from it.
    fn publish_timite_connected(&mut self, storage: &mut TimStorage, timite: &Timite, now: Timestamp) -> (r:
        Result<(), TimSpaceError>)
        requires
            old(self).inv(old(storage)),
        ensures
            final(self).inv(final(storage)),
            final(storage).same_but_events(*old(storage)),
            survivors_of(final(self).subscribers(), old(self).subscribers()),
            match r {
                Ok(_) => final(self).published(final(storage), old(self), old(storage), EventData::TimiteConnected(*timite), now),
                Err(e) => {
                    &&& e is Timeline
                    &&& final(self).counter() == u64::MAX
                    &&& old(self).counter() + old(self).subscribers().len() >= u64::MAX
                    &&& old(self).counter() == u64::MAX ==> final(self).subscribers() == old(
                        self,
                    ).subscribers() && final(storage).events() == old(storage).events()
                },
            },
    {
        self.publish(storage, EventData::TimiteConnected(timite.clone()), None, now)
    }

    /// Announces the departure of `timite`: one `TimiteDisconnected` event,
    /// handed to every subscription. Returns the participants that lost their
    /// last subscription while it was handed out.
    fn publish_timite_disconnected(&mut self, storage: &mut TimStorage, timite: &Timite, now: Timestamp) -> (r:
        Result<Vec<Timite>, TimSpaceError>)
        requires
            old(self).inv(old(storage)),
        ensures
            final(self).inv(final(storage)),
            final(storage).same_but_events(*old(storage)),
            survivors_of(final(self).subscribers(), old(self).subscribers()),
            final(self).subscribers().len() <= old(self).subscribers().len(),
            match r {
                Ok(removed) => {
                    &&& old(self).counter() < u64::MAX
                    &&& final(self).counter() == old(self).counter() + 1
                    &&& final(storage).events() == old(storage).events().push(
                        event_of(old(self).counter() + 1, now, EventData::TimiteDisconnected(*timite)),
                    )
                    &&& removed@ == vanished(
                        owners(old(self).subscribers()),
                        final(self).subscribers(),
                    )
                    &&& removed@.len() + final(self).subscribers().len() <= old(
                        self,
                    ).subscribers().len()
                },
                Err(e) => {
                    &&& old(self).counter() == u64::MAX
                    &&& e is Timeline
                    &&& final(self).counter() == old(self).counter()
                    &&& final(self).subscribers() == old(self).subscribers()
                    &&& final(storage).events() == old(storage).events()
                },
            },
    {
        self.emit(storage, EventData::TimiteDisconnected(timite.clone()), None, now)
    }

    /// Publishes a message: one `NewMessage` event, which subscriptions of the
    /// sender get only where they ask for their owner's own events.
    pub fn publish_message(&mut self, storage: &mut TimStorage, message: &Message, now: Timestamp) -> (r:
        Result<(), TimSpaceError>)
        requires
            old(self).inv(old(storage)),
        ensures
            final(self).inv(final(storage)),
            final(storage).same_but_events(*old(storage)),
            survivors_of(final(self).subscribers(), old(self).subscribers()),
            match r {
                Ok(_) => final(self).published(
                    final(storage),
                    old(self),
                    old(storage),
                    EventData::NewMessage(*message),
                    now,
                ),
                Err(e) => {
                    &&& e is Timeline
                    &&& final(self).counter() == u64::MAX
                    &&& old(self).counter() + old(self).subscribers().len() >= u64::MAX
                    &&& old(self).counter() == u64::MAX ==> final(self).subscribers() == old(
                        self,
                    ).subscribers() && final(storage).events() == old(storage).events()
                },
            },
    {
        self.publish(storage, EventData::NewMessage(message.clone()), Some(message.sender_id), now)
    }

    /// Publishes an ability call: one `CallAbility` event, which subscriptions
    /// of the caller get only where they ask for their owner's own events.
    pub fn publish_call_ability(
        &mut self,
        storage: &mut TimStorage,
        call_ability: &CallAbility,
        now: Timestamp,
    ) -> (r: Result<(), TimSpaceError>)
        requires
            old(self).inv(old(storage)),
        ensures
            final(self).inv(final(storage)),
            final(storage).same_but_events(*old(storage)),
            survivors_of(final(self).subscribers(), old(self).subscribers()),
            match r {
                Ok(_) => final(self).published(
                    final(storage),
                    old(self),
                    old(storage),
                    EventData::CallAbility(*call_ability),
                    now,
                ),
                Err(e) => {
                    &&& e is Timeline
                    &&& final(self).counter() == u64::MAX
                    &&& old(self).counter() + old(self).subscribers().len() >= u64::MAX
                    &&& old(self).counter() == u64::MAX ==> final(self).subscribers() == old(
                        self,
                    ).subscribers() && final(storage).events() == old(storage).events()
                },
            },
    {
        self.publish(
            storage,
            EventData::CallAbility(call_ability.clone()),
            Some(call_ability.sender_id),
            now,
        )
    }

    /// Publishes the outcome of an ability call that `sender_timite_id`
    /// submitted: one `CallAbilityOutcome` event, which subscriptions of the
    /// submitter get only where they ask for their owner's own events.
    pub fn publish_call_outcome(
        &mut self,
        storage: &mut TimStorage,
        outcome: &CallAbilityOutcome,
        sender_timite_id: u64,
        now: Timestamp,
    ) -> (r: Result<(), TimSpaceError>)
        requires
            old(self).inv(old(storage)),
        ensures
            final(self).inv(final(storage)),
            final(storage).same_but_events(*old(storage)),
            survivors_of(final(self).subscribers(), old(self).subscribers()),
            match r {
                Ok(_) => final(self).published(
                    final(storage),
                    old(self),
                    old(storage),
                    EventData::CallAbilityOutcome(*outcome),
                    now,
                ),
                Err(e) => {
                    &&& e is Timeline
                    &&& final(self).counter() == u64::MAX
                    &&& old(self).counter() + old(self).subscribers().len() >= u64::MAX
                    &&& old(self).counter() == u64::MAX ==> final(self).subscribers() == old(
                        self,
                    ).subscribers() && final(storage).events() == old(storage).events()
                },
            },
    {
        self.publish(
            storage,
            EventData::CallAbilityOutcome(outcome.clone()),
            Some(sender_timite_id),
            now,
        )
    }

    /// `self` is `before` with one more subscription: of the subscriptions
    /// of `before`, those of `live` are left, but the one that `session` had;
    /// the new one, of `session`, stands at the end of the registry.
    pub open spec fn joined(
        &self,
        before: &TimSpace,
        live: Seq<Subscriber>,
        receive_own: bool,
        session: Session,
        timite: Timite,
    ) -> bool {
        &&& self.wf()
        &&& self.counter() == before.counter()
        &&& survivors_of(live, before.subscribers())
        &&& self.subscribers().len() > 0
        &&& self.subscribers().last().receive_own_messages == receive_own
        &&& self.subscribers().last().session == session
        &&& self.subscribers().last().timite == timite
        &&& self.subscribers().drop_last() == without(live, seq![session.key])
    }

    /// What a subscription does: `live` are the subscriptions that were not
    /// found closed, `joined` is the space with the new subscription, and
    /// where the participant had no subscription among `live`, its arrival
    /// is published from `joined`; else nothing more happens.
    pub open spec fn subscribed(
        &self,
        storage: &TimStorage,
        before: &TimSpace,
        stored: &TimStorage,
        joined: &TimSpace,
        live: Seq<Subscriber>,
        receive_own: bool,
        session: Session,
        timite: Timite,
        now: Timestamp,
    ) -> bool {
        &&& joined.joined(before, live, receive_own, session, timite)
        &&& if present(live, timite.id) {
            &&& self.subscribers() == joined.subscribers()
            &&& self.counter() == joined.counter()
            &&& storage.events() == stored.events()
        } else {
            self.published(storage, joined, stored, EventData::TimiteConnected(timite), now)
        }
    }

    /// For each subscription, in registry order, whether the reader has
    /// closed or dropped its queue.
    fn closed_flags(&self) -> (flags: Vec<bool>)
        ensures
            flags@.len() == self.subscribers().len(),
    {
        let mut flags: Vec<bool> = Vec::new();
        let mut i: usize = 0;
        while i < self.subscribers.len()
            invariant
                i <= self.subscribers.len(),
                flags@.len() == i,
            decreases self.subscribers.len() - i,
        {
            flags.push(chan_is_closed(&self.subscribers[i].chan));
            i += 1;
        }
        flags
    }

    /// The sessions of the subscriptions that `flags` marks, in registry
    /// order. A subscription without a flag is not marked.
    pub fn sessions_marked(&self, flags: &Vec<bool>) -> (keys: Vec<String>)
        ensures
            keys@ == marked(self.subscribers(), flags@),
            forall|key: Seq<char>| names(keys@, key) ==> has_session(self.subscribers(), key),
    {
        let mut keys: Vec<String> = Vec::new();
        let mut i: usize = 0;
        assert(self.subscribers@.subrange(0, 0) =~= Seq::<Subscriber>::empty());
        while i < self.subscribers.len()
            invariant
                i <= self.subscribers.len(),
                keys@ == marked(self.subscribers@.subrange(0, i as int), flags@),
                forall|key: Seq<char>| names(keys@, key) ==> has_session(self.subscribers@, key),
            decreases self.subscribers.len() - i,
        {
            proof {
                let subs = self.subscribers@;
                assert(subs.subrange(0, i + 1).drop_last() =~= subs.subrange(0, i as int));
                assert(subs.subrange(0, i + 1).last() == subs[i as int]);
            }
            if i < flags.len() && flags[i] {
                let ghost held = keys@;
                keys.push(self.subscribers[i].session.key.clone());
                proof {
                    assert forall|key: Seq<char>| names(keys@, key) implies has_session(
                        self.subscribers@,
                        key,
                    ) by {
                        let k = choose|k: int| 0 <= k < keys@.len() && (#[trigger] keys@[k])@ == key;
                        if k < held.len() {
                            assert(held[k]@ == key);
                            assert(names(held, key));
                        } else {
                            assert(self.subscribers@[i as int].session.key@ == key);
                        }
                    }
                }
            }
            i += 1;
        }
        assert(self.subscribers@.subrange(0, i as int) =~= self.subscribers@);
        keys
    }

    /// The sessions whose queue the reader has closed or dropped, in registry
    /// order. Which queues are closed is for the readers to decide: the
    /// result is what `sessions_marked` makes of one flag for each
    /// subscription.
    pub fn closed_sessions(&self) -> (keys: Vec<String>)
        ensures
            exists|flags: Seq<bool>|
                flags.len() == self.subscribers().len() && keys@ == #[trigger] marked(
                    self.subscribers(),
                    flags,
                ),
            forall|key: Seq<char>| names(keys@, key) ==> has_session(self.subscribers(), key),
    {
        let flags = self.closed_flags();
        let keys = self.sessions_marked(&flags);
        assert(flags@.len() == self.subscribers().len() && keys@ == marked(
            self.subscribers(),
            flags@,
        ));
        keys
    }

    /// Puts a subscription of `session` at the end of the registry, in place
    /// of the one that the session had.
    fn register(&mut self, receive_own: bool, chan: Sender<SpaceEvent>, session: &Session, timite: Timite)
        requires
            old(self).wf(),
            session.timite_id == timite.id,
        ensures
            final(self).joined(old(self), old(self).subscribers(), receive_own, *session, timite),
            final(self).subscribers().last().chan == chan,
    {
        let mut gone: Vec<String> = Vec::new();
        gone.push(session.key.clone());
        let ghost before = self.subscribers@;
        let _ = self.prune_disconnected(&gone);
        let ghost kept = self.subscribers@;
        proof {
            assert(gone@ =~= seq![session.key]);
            let keep = |s: Subscriber| !names(gone@, s.session.key@);
            lemma_filter_registry(before, keep);
            assert forall|i: int| 0 <= i < kept.len() implies (#[trigger] kept[i]).session.key@
                != session.key@ by {
                assert(keep(kept[i]));
                if kept[i].session.key@ == session.key@ {
                    assert(gone@[0]@ == session.key@);
                    assert(names(gone@, kept[i].session.key@));
                }
            }
        }
        self.subscribers.push(
            Subscriber { receive_own_messages: receive_own, chan, session: session.clone(), timite },
        );
        proof {
            let subs = self.subscribers@;
            assert(subs.drop_last() =~= kept);
            assert forall|i: int, j: int| #![trigger subs[i], subs[j]] 0 <= i < j < subs.len() implies subs[i].session.key@
                != subs[j].session.key@ by {
                if j < kept.len() {
                    assert(kept[i].session.key@ != kept[j].session.key@);
                } else {
                    assert(subs[i] == kept[i]);
                }
            }
            assert forall|i: int| #![trigger subs[i]] 0 <= i < subs.len() implies subs[i].session.timite_id
                == subs[i].timite.id by {
                if i < kept.len() {
                    assert(subs[i] == kept[i]);
                }
            }
            assert forall|i: int| 0 <= i < before.len() implies before.contains(
                #[trigger] before[i],
            ) by {}
        }
    }

    /// Opens a subscription of `session`, whose participant is `timite`, and
    /// returns the reading end of its queue. Subscriptions whose queue is
    /// closed leave the registry first, unannounced. Where the participant
    /// has no other subscription then, its arrival is published, to the new
    /// subscription too.
    pub fn subscribe(
        &mut self,
        storage: &mut TimStorage,
        req: &SubscribeToSpaceReq,
        session: &Session,
        timite: Timite,
        now: Timestamp,
    ) -> (r: Result<Receiver<SpaceEvent>, TimSpaceError>)
        requires
            old(self).inv(old(storage)),
            session.timite_id == timite.id,
        ensures
            final(self).inv(final(storage)),
            final(storage).same_but_events(*old(storage)),
            match r {
                Ok(_) => exists|joined: TimSpace, live: Seq<Subscriber>|
                    #[trigger] final(self).subscribed(
                        final(storage),
                        old(self),
                        old(storage),
                        &joined,
                        live,
                        req.receive_own_messages,
                        *session,
                        timite,
                        now,
                    ),
                Err(e) => {
                    &&& e is Timeline
                    &&& final(self).counter() == u64::MAX
                    &&& old(self).counter() + old(self).subscribers().len() + 1 >= u64::MAX
                },
            },
    {
        let (sender, receiver) = open_channel(BUFFER_SIZE);
        let closed = self.closed_sessions();
        let ghost before = self.subscribers@;
        let _ = self.prune_disconnected(&closed);
        let ghost live = self.subscribers@;
        proof {
            let keep = |s: Subscriber| !names(closed@, s.session.key@);
            lemma_filter_registry(before, keep);
        }
        let was_present = self.is_present(timite.id);
        let timite_copy = timite.clone();
        self.register(req.receive_own_messages, sender, session, timite);
        let ghost joined = *self;
        proof {
            assert(joined.joined(old(self), live, req.receive_own_messages, *session, timite));
            let gone = seq![session.key];
            lemma_filter_registry(live, |s: Subscriber| !names(gone, s.session.key@));
            assert(joined.subscribers().drop_last().len() <= live.len());
            assert(joined.subscribers().len() <= before.len() + 1);
        }
        if !was_present {
            match self.publish_timite_connected(storage, &timite_copy, now) {
                Ok(_) => {},
                Err(e) => {
                    return Err(e);
                },
            }
        }
        proof {
            assert(self.subscribed(
                storage,
                old(self),
                old(storage),
                &joined,
                live,
                req.receive_own_messages,
                *session,
                timite,
                now,
            ));
        }
        Ok(receiver)
    }

    /// What a cleanup of the sessions `closed` does to the space and the
    /// timeline. The subscriptions of `closed` leave the registry, and
    /// `removed` is their number. One departure goes to the end of the
    /// timeline for each participant that was present in `before` and is not
    /// in `self`, under consecutive ids from the one after `before`'s counter
    /// on. A subscription that did not take a departure leaves too; where
    /// nobody is left without a subscription by the removal of `closed`, no
    /// departure is published and no other subscription leaves.
    pub open spec fn cleaned(
        &self,
        storage: &TimStorage,
        before: &TimSpace,
        stored: &TimStorage,
        closed: Seq<String>,
        removed: usize,
        now: Timestamp,
    ) -> bool {
        let log = storage.events();
        let base = stored.events();
        let kept = without(before.subscribers(), closed);
        &&& removed == before.subscribers().len() - kept.len()
        &&& survivors_of(self.subscribers(), kept)
        &&& self.subscribers().len() <= kept.len()
        &&& log.len() >= base.len()
        &&& log.subrange(0, base.len() as int) == base
        &&& stamped(log.skip(base.len() as int), before.counter() + 1, now)
        &&& announces(log.skip(base.len() as int), Seq::empty(), before.subscribers(), self.subscribers())
        &&& self.counter() == before.counter() + (log.len() - base.len())
        &&& vanished(owners(before.subscribers()), kept).len() == 0 ==> self.subscribers() == kept
            && log == base
    }

    /// Removes the subscriptions of the sessions `closed`, announces the
    /// departure of each participant that has none left, and returns the
    /// number of subscriptions of `closed` that were removed. It fails only
    /// where the ids for the departures run out.
    pub fn cleanup_sessions(&mut self, storage: &mut TimStorage, closed: &Vec<String>, now: Timestamp) -> (r:
        Result<usize, TimSpaceError>)
        requires
            old(self).inv(old(storage)),
        ensures
            final(self).inv(final(storage)),
            final(storage).same_but_events(*old(storage)),
            survivors_of(final(self).subscribers(), old(self).subscribers()),
            final(storage).events().len() >= old(storage).events().len(),
            final(storage).events().subrange(0, old(storage).events().len() as int) == old(
                storage,
            ).events(),
            match r {
                Ok(removed) => final(self).cleaned(
                    final(storage),
                    old(self),
                    old(storage),
                    closed@,
                    removed,
                    now,
                ),
                Err(e) => {
                    &&& e is Timeline
                    &&& final(self).counter() == u64::MAX
                    &&& old(self).counter() + old(self).subscribers().len() > u64::MAX
                },
            },
    {
        let before_len = self.subscribers.len();
        let ghost before = self.subscribers@;
        let removed_timites = self.prune_disconnected(closed);
        proof {
            let keep = |s: Subscriber| !names(closed@, s.session.key@);
            lemma_filter_registry(before, keep);
            lemma_vanished(owners(before), self.subscribers@);
            lemma_owners(before);
            assert(leavers(Seq::<SpaceEvent>::empty()) =~= Seq::<Timite>::empty());
        }
        let removed = before_len - self.subscribers.len();
        match self.publish_disconnected_batch(storage, removed_timites, now, Ghost(before)) {
            Ok(_) => Ok(removed),
            Err(e) => Err(e),
        }
    }

    /// Removes every subscription whose queue is closed, announces the
    /// departure of each participant that has none left, and returns the
    /// number of subscriptions that were found closed: what
    /// `cleanup_sessions` does with the sessions that `closed_sessions`
    /// reports. Where no queue is closed, nothing changes and the number
    /// is 0.
    pub fn cleanup_disconnected(&mut self, storage: &mut TimStorage, now: Timestamp) -> (r: Result<
        usize,
        TimSpaceError,
    >)
        requires
            old(self).inv(old(storage)),
        ensures
            final(self).inv(final(storage)),
            final(storage).same_but_events(*old(storage)),
            survivors_of(final(self).subscribers(), old(self).subscribers()),
            final(storage).events().len() >= old(storage).events().len(),
            final(storage).events().subrange(0, old(storage).events().len() as int) == old(
                storage,
            ).events(),
            match r {
                Ok(removed) => {
                    &&& exists|flags: Seq<bool>|
                        flags.len() == old(self).subscribers().len() && final(self).cleaned(
                            final(storage),
                            old(self),
                            old(storage),
                            #[trigger] marked(old(self).subscribers(), flags),
                            removed,
                            now,
                        )
                    &&& removed == 0 ==> final(self).subscribers() == old(self).subscribers()
                        && final(storage).events() == old(storage).events()
                },
                Err(e) => {
                    &&& e is Timeline
                    &&& final(self).counter() == u64::MAX
                    &&& old(self).counter() + old(self).subscribers().len() > u64::MAX
                },
            },
    {
        let closed = self.closed_sessions();
        let r = self.cleanup_sessions(storage, &closed, now);
        proof {
            if r is Ok {
                let subs = old(self).subscribers();
                let flags = choose|flags: Seq<bool>|
                    flags.len() == subs.len() && closed@ == #[trigger] marked(subs, flags);
                assert(self.cleaned(
                    storage,
                    old(self),
                    old(storage),
                    marked(subs, flags),
                    r.unwrap(),
                    now,
                ));
                if r.unwrap() == 0 {
                    let keep = |s: Subscriber| !names(closed@, s.session.key@);
                    lemma_filter_registry(subs, keep);
                    lemma_owners(subs);
                    lemma_vanished_none(owners(subs), subs);
                }
            }
        }
        r
    }

    /// A page of the timeline, in ascending order of the ids: with `offset` 0
    /// the events of the last `size` ids, else at most `size` events from the
    /// id `offset` on.
    pub fn timeline(&self, storage: &TimStorage, offset: u64, size: u32) -> (r: Vec<SpaceEvent>)
        requires
            storage.wf(),
        ensures
            r@ == crate::tim_storage::timeline_page(storage.events(), offset, size),
    {
        storage.timeline(offset, size)
    }
}

/// What the space stamps on the event `upd_id` that it emits at `now`.
pub fn event_metadata(upd_id: u64, now: Timestamp) -> (metadata: EventMetadata)
    ensures
        metadata == (EventMetadata { id: upd_id, emitted_at: now }),
{
    EventMetadata { id: upd_id, emitted_at: now }
}

/// The event `upd_id` that tells of a new message.
pub fn event_new_message(upd_id: u64, message: &Message, now: Timestamp) -> (event: SpaceEvent)
    ensures
        event == event_of(upd_id as int, now, EventData::NewMessage(*message)),
{
    SpaceEvent { metadata: event_metadata(upd_id, now), data: EventData::NewMessage(message.clone()) }
}

/// The event `upd_id` that tells of an ability call.
pub fn event_call_ability(upd_id: u64, call_ability: &CallAbility, now: Timestamp) -> (event:
    SpaceEvent)
    ensures
        event == event_of(upd_id as int, now, EventData::CallAbility(*call_ability)),
{
    SpaceEvent {
        metadata: event_metadata(upd_id, now),
        data: EventData::CallAbility(call_ability.clone()),
    }
}

/// The event `upd_id` that tells of the outcome of an ability call.
pub fn event_call_ability_outcome(upd_id: u64, outcome: &CallAbilityOutcome, now: Timestamp) -> (event:
    SpaceEvent)
    ensures
        event == event_of(upd_id as int, now, EventData::CallAbilityOutcome(*outcome)),
{
    SpaceEvent {
        metadata: event_metadata(upd_id, now),
        data: EventData::CallAbilityOutcome(outcome.clone()),
    }
}

/// The event `upd_id` that tells of an arrival.
pub fn event_timite_connected(upd_id: u64, timite: &Timite, now: Timestamp) -> (event: SpaceEvent)
    ensures
        event == event_of(upd_id as int, now, EventData::TimiteConnected(*timite)),
{
    SpaceEvent {
        metadata: event_metadata(upd_id, now),
        data: EventData::TimiteConnected(timite.clone()),
    }
}

/// The event `upd_id` that tells of a departure.
pub fn event_timite_disconnected(upd_id: u64, timite: &Timite, now: Timestamp) -> (event:
    SpaceEvent)
    ensures
        event == event_of(upd_id as int, now, EventData::TimiteDisconnected(*timite)),
{
    SpaceEvent {
        metadata: event_metadata(upd_id, now),
        data: EventData::TimiteDisconnected(timite.clone()),
    }
}

/// Tells whether a participant of `list` has the id `id`.
pub fn has_id(list: &Vec<Timite>, id: u64) -> (r: bool)
    ensures
        r == lists(list@, id),
{
    let mut i: usize = 0;
    while i < list.len()
        invariant
            i <= list.len(),
            forall|j: int| 0 <= j < i ==> (#[trigger] list@[j]).id != id,
        decreases list.len() - i,
    {
        if list[i].id == id {
            return true;
        }
        i += 1;
    }
    false
}

/// Tells whether an event of `origin` is meant for `sub`.
pub fn is_deliverable(sub: &Subscriber, origin: Option<u64>) -> (r: bool)
    ensures
        r == deliverable(*sub, origin),
{
    match origin {
        Some(sender_id) => sub.receive_own_messages || sub.session.timite_id != sender_id,
        None => true,
    }
}

/// The sessions whose queue did not take the event.
pub fn broken_sessions(report: &Vec<Delivery>) -> (keys: Vec<String>)
    ensures
        forall|key: Seq<char>|
            names(keys@, key) <==> exists|i: int|
                0 <= i < report@.len() && (#[trigger] report@[i]).session_key@ == key
                    && !report@[i].delivered,
{
    let mut keys: Vec<String> = Vec::new();
    let mut i: usize = 0;
    while i < report.len()
        invariant
            i <= report.len(),
            forall|key: Seq<char>|
                names(keys@, key) <==> exists|j: int|
                    0 <= j < i && (#[trigger] report@[j]).session_key@ == key
                        && !report@[j].delivered,
        decreases report.len() - i,
    {
        let ghost held = keys@;
        if !report[i].delivered {
            keys.push(report[i].session_key.clone());
            proof {
                assert forall|key: Seq<char>| names(keys@, key) <==> exists|j: int|
                    0 <= j < i + 1 && (#[trigger] report@[j]).session_key@ == key
                        && !report@[j].delivered by {
                    if names(keys@, key) {
                        let k = choose|k: int| 0 <= k < keys@.len() && (#[trigger] keys@[k])@ == key;
                        if k < held.len() {
                            assert(held[k]@ == key);
                            assert(names(held, key));
                        } else {
                            assert(report@[i as int].session_key@ == key);
                        }
                    }
                    if exists|j: int|
                        0 <= j < i + 1 && (#[trigger] report@[j]).session_key@ == key
                            && !report@[j].delivered {
                        let j = choose|j: int|
                            0 <= j < i + 1 && (#[trigger] report@[j]).session_key@ == key
                                && !report@[j].delivered;
                        if j < i {
                            assert(names(held, key));
                            let k = choose|k: int| 0 <= k < held.len() && (#[trigger] held[k])@ == key;
                            assert(keys@[k]@ == key);
                        } else {
                            assert(keys@[keys@.len() - 1]@ == key);
                        }
                    }
                }
            }
        }
        i += 1;
    }
    keys
}

/// Tells whether `key` is among `keys`.
pub fn names_key(keys: &Vec<String>, key: &String) -> (r: bool)
    ensures
        r == names(keys@, key@),
{
    let mut i: usize = 0;
    while i < keys.len()
        invariant
            i <= keys.len(),
            forall|j: int| 0 <= j < i ==> (#[trigger] keys@[j])@ != key@,
        decreases keys.len() - i,
    {
        if keys[i] == *key {
            return true;
        }
        i += 1;
    }
    false
}

} // verus!
