//! The typed records of the space over the ordered store: participants and
//! their ability sets (data), sessions (secrets), and messages, ability calls
//! and timeline events (log).

pub mod key;
pub mod keyed;

use vstd::prelude::*;
use crate::api::{
    ability_views, clone_abilities, Ability, AbilityView, CallAbility, Message, Session,
    SpaceEvent, StoredTimiteAbilities, Timite, TimiteAbilities,
};
use crate::kvstore::{
    borrowed, first_n, lemma_filter_push, lemma_lookup_absent, lemma_put_rows, lookup, ordered,
    put_rows, rows_with_prefix, values_of, KvStore, KvStoreError,
};
use crate::tim_storage::key::{
    spec_ability_call, spec_ability_call_prefix, spec_message, spec_message_prefix,
    spec_session, spec_timeline_event, spec_timeline_prefix, spec_timite, spec_timite_abilities,
    spec_timite_abilities_prefix, spec_timite_prefix,
};
use crate::tim_storage::keyed::{
    ascending, from_id, id_key, id_keyed, lemma_id_key_order, lemma_id_keyed_all_prefixed,
    lemma_id_keyed_append, lemma_id_keyed_ascending, lemma_id_keyed_find, lemma_id_keyed_from,
    lemma_id_keyed_put, lemma_id_keyed_top,
};

verus! {

/// What the storage can report.
#[derive(Debug, PartialEq, Eq)]
pub enum TimStorageError {
    KvStore(KvStoreError),
    Timeline(String),
}

/// The id under which a participant is stored.
pub open spec fn timite_idf() -> spec_fn(Timite) -> u64 {
    |t: Timite| t.id
}

/// The id under which an ability set is stored: that of its owner.
pub open spec fn stored_abilities_idf() -> spec_fn(StoredTimiteAbilities) -> u64 {
    |s: StoredTimiteAbilities| s.timite_id
}

/// The id under which a message is stored.
pub open spec fn message_idf() -> spec_fn(Message) -> u64 {
    |m: Message| m.id
}

/// The id under which an ability call is stored.
pub open spec fn call_idf() -> spec_fn(CallAbility) -> u64 {
    |c: CallAbility| c.call_ability_id
}

/// The id under which a timeline event is stored.
pub open spec fn event_idf() -> spec_fn(SpaceEvent) -> u64 {
    |e: SpaceEvent| e.metadata.id
}

/// Every session stands under the key of its credential.
pub open spec fn session_keyed(rows: Seq<(Seq<u8>, Session)>) -> bool {
    forall|i: int| #![trigger rows[i]] 0 <= i < rows.len() ==> rows[i].0 == spec_session(rows[i].1.key@)
}

/// The events of `log` from the id `start` on.
pub open spec fn events_from(log: Seq<SpaceEvent>, start: u64) -> Seq<SpaceEvent> {
    from_id(log, event_idf(), start)
}

/// The id at which a page of `size` events that ends with the event `last` begins.
pub open spec fn tail_start(last: u64, size: u32) -> u64 {
    if last >= size - 1 {
        (last - (size - 1)) as u64
    } else {
        0
    }
}

/// The page of the timeline that `offset` and `size` ask for: with offset 0
/// the events of the last `size` ids, else the first `size` events from the
/// id `offset` on.
pub open spec fn timeline_page(log: Seq<SpaceEvent>, offset: u64, size: u32) -> Seq<SpaceEvent> {
    if size == 0 {
        Seq::empty()
    } else if offset == 0 {
        if log.len() == 0 {
            Seq::empty()
        } else {
            first_n(events_from(log, tail_start(log.last().metadata.id, size)), size as int)
        }
    } else {
        first_n(events_from(log, offset), size as int)
    }
}

/// What a listed entry says: the participant and its abilities.
pub open spec fn listed_view(entry: TimiteAbilities) -> (Timite, Seq<AbilityView>) {
    (entry.timite, ability_views(entry.abilities@))
}

/// The records of the space.
pub struct TimStorage {
    sessions: KvStore<Session>,
    timites: KvStore<Timite>,
    abilities: KvStore<StoredTimiteAbilities>,
    messages: KvStore<Message>,
    calls: KvStore<CallAbility>,
    events: KvStore<SpaceEvent>,
}

impl TimStorage {
    /// The stored sessions, in key order.
    pub closed spec fn session_rows(&self) -> Seq<(Seq<u8>, Session)> {
        self.sessions.secrets.rows()
    }

    /// The stored participants, in key order.
    pub closed spec fn timite_rows(&self) -> Seq<(Seq<u8>, Timite)> {
        self.timites.data.rows()
    }

    /// The stored ability sets, in key order.
    pub closed spec fn ability_rows(&self) -> Seq<(Seq<u8>, StoredTimiteAbilities)> {
        self.abilities.data.rows()
    }

    /// The stored messages, in key order.
    pub closed spec fn message_rows(&self) -> Seq<(Seq<u8>, Message)> {
        self.messages.log.rows()
    }

    /// The stored ability calls, in key order.
    pub closed spec fn call_rows(&self) -> Seq<(Seq<u8>, CallAbility)> {
        self.calls.log.rows()
    }

    /// The stored timeline events, in key order.
    pub closed spec fn event_rows(&self) -> Seq<(Seq<u8>, SpaceEvent)> {
        self.events.log.rows()
    }

    /// The stores are in key order and every record stands under its own key.
    pub closed spec fn wf(&self) -> bool {
        &&& self.sessions.wf()
        &&& self.timites.wf()
        &&& self.abilities.wf()
        &&& self.messages.wf()
        &&& self.calls.wf()
        &&& self.events.wf()
        &&& session_keyed(self.session_rows())
        &&& id_keyed(self.timite_rows(), spec_timite_prefix(), timite_idf())
        &&& id_keyed(self.ability_rows(), spec_timite_abilities_prefix(), stored_abilities_idf())
        &&& id_keyed(self.message_rows(), spec_message_prefix(), message_idf())
        &&& id_keyed(self.call_rows(), spec_ability_call_prefix(), call_idf())
        &&& id_keyed(self.event_rows(), spec_timeline_prefix(), event_idf())
    }

    /// The session with the credential `key`.
    pub open spec fn session_at(&self, key: Seq<char>) -> Option<Session> {
        lookup(self.session_rows(), spec_session(key))
    }

    /// The participant `id`.
    pub open spec fn timite_at(&self, id: u64) -> Option<Timite> {
        lookup(self.timite_rows(), spec_timite(id))
    }

    /// The ability set that the participant `id` declared last.
    pub open spec fn abilities_at(&self, id: u64) -> Option<StoredTimiteAbilities> {
        lookup(self.ability_rows(), spec_timite_abilities(id))
    }

    /// The message `id`.
    pub open spec fn message_at(&self, id: u64) -> Option<Message> {
        lookup(self.message_rows(), spec_message(id))
    }

    /// The ability call `id`.
    pub open spec fn call_at(&self, id: u64) -> Option<CallAbility> {
        lookup(self.call_rows(), spec_ability_call(id))
    }

    /// The timeline event `id`.
    pub open spec fn event_at(&self, id: u64) -> Option<SpaceEvent> {
        lookup(self.event_rows(), spec_timeline_event(id))
    }

    /// The timeline: every stored event, in the order of the ids.
    pub open spec fn events(&self) -> Seq<SpaceEvent> {
        values_of(self.event_rows())
    }

    /// The largest id in the timeline, 0 where it is empty.
    pub open spec fn last_event_id(&self) -> u64 {
        if self.events().len() == 0 {
            0
        } else {
            self.events().last().metadata.id
        }
    }

    /// The stored ability sets, in the order of their owners' ids.
    pub open spec fn declared(&self) -> Seq<StoredTimiteAbilities> {
        values_of(self.ability_rows())
    }

    /// What `list_abilities` answers: the declared sets whose owner is a
    /// stored participant, each with that participant.
    pub open spec fn listed(&self) -> Seq<(Timite, Seq<AbilityView>)> {
        self.listed_of(self.declared())
    }

    /// Of some ability sets, those whose owner is a stored participant, each
    /// with that participant.
    pub open spec fn listed_of(&self, sets: Seq<StoredTimiteAbilities>) -> Seq<
        (Timite, Seq<AbilityView>),
    > {
        sets.filter(|s: StoredTimiteAbilities| self.timite_at(s.timite_id).is_some()).map_values(
            |s: StoredTimiteAbilities|
                (self.timite_at(s.timite_id).unwrap(), ability_views(s.abilities@)),
        )
    }

    /// What one more ability set adds to the list.
    pub proof fn lemma_listed_push(&self, sets: Seq<StoredTimiteAbilities>, next: StoredTimiteAbilities)
        ensures
            self.listed_of(sets.push(next)) == if self.timite_at(next.timite_id).is_some() {
                self.listed_of(sets).push(
                    (self.timite_at(next.timite_id).unwrap(), ability_views(next.abilities@)),
                )
            } else {
                self.listed_of(sets)
            },
    {
        let known = |s: StoredTimiteAbilities| self.timite_at(s.timite_id).is_some();
        lemma_filter_push(sets, next, known);
        if self.timite_at(next.timite_id).is_some() {
            assert(self.listed_of(sets.push(next)) =~= self.listed_of(sets).push(
                (self.timite_at(next.timite_id).unwrap(), ability_views(next.abilities@)),
            ));
        }
    }

    /// Everything but the sessions is as in `before`.
    pub open spec fn same_but_sessions(&self, before: TimStorage) -> bool {
        &&& self.timite_rows() == before.timite_rows()
        &&& self.ability_rows() == before.ability_rows()
        &&& self.message_rows() == before.message_rows()
        &&& self.call_rows() == before.call_rows()
        &&& self.event_rows() == before.event_rows()
    }

    /// Everything but the participants is as in `before`.
    pub open spec fn same_but_timites(&self, before: TimStorage) -> bool {
        &&& self.session_rows() == before.session_rows()
        &&& self.ability_rows() == before.ability_rows()
        &&& self.message_rows() == before.message_rows()
        &&& self.call_rows() == before.call_rows()
        &&& self.event_rows() == before.event_rows()
    }

    /// Everything but the ability sets is as in `before`.
    pub open spec fn same_but_abilities(&self, before: TimStorage) -> bool {
        &&& self.session_rows() == before.session_rows()
        &&& self.timite_rows() == before.timite_rows()
        &&& self.message_rows() == before.message_rows()
        &&& self.call_rows() == before.call_rows()
        &&& self.event_rows() == before.event_rows()
    }

    /// Everything but the messages is as in `before`.
    pub open spec fn same_but_messages(&self, before: TimStorage) -> bool {
        &&& self.session_rows() == before.session_rows()
        &&& self.timite_rows() == before.timite_rows()
        &&& self.ability_rows() == before.ability_rows()
        &&& self.call_rows() == before.call_rows()
        &&& self.event_rows() == before.event_rows()
    }

    /// Everything but the ability calls is as in `before`.
    pub open spec fn same_but_calls(&self, before: TimStorage) -> bool {
        &&& self.session_rows() == before.session_rows()
        &&& self.timite_rows() == before.timite_rows()
        &&& self.ability_rows() == before.ability_rows()
        &&& self.message_rows() == before.message_rows()
        &&& self.event_rows() == before.event_rows()
    }

    /// Everything but the timeline is as in `before`.
    pub open spec fn same_but_events(&self, before: TimStorage) -> bool {
        &&& self.session_rows() == before.session_rows()
        &&& self.timite_rows() == before.timite_rows()
        &&& self.ability_rows() == before.ability_rows()
        &&& self.message_rows() == before.message_rows()
        &&& self.call_rows() == before.call_rows()
    }

    /// A storage without records.
    pub fn new() -> (storage: Self)
        ensures
            storage.wf(),
            storage.session_rows().len() == 0,
            storage.timite_rows().len() == 0,
            storage.ability_rows().len() == 0,
            storage.message_rows().len() == 0,
            storage.call_rows().len() == 0,
            storage.event_rows().len() == 0,
            storage.events().len() == 0,
            forall|key: Seq<char>| (#[trigger] storage.session_at(key)).is_none(),
            forall|id: u64| (#[trigger] storage.timite_at(id)).is_none(),
            forall|id: u64| (#[trigger] storage.abilities_at(id)).is_none(),
            forall|id: u64| (#[trigger] storage.message_at(id)).is_none(),
            forall|id: u64| (#[trigger] storage.call_at(id)).is_none(),
            forall|id: u64| (#[trigger] storage.event_at(id)).is_none(),
    {
        let storage = TimStorage {
            sessions: KvStore::new(),
            timites: KvStore::new(),
            abilities: KvStore::new(),
            messages: KvStore::new(),
            calls: KvStore::new(),
            events: KvStore::new(),
        };
        proof {
            assert forall|key: Seq<char>| (#[trigger] storage.session_at(key)).is_none() by {
                lemma_lookup_absent(storage.session_rows(), spec_session(key));
            }
            assert forall|id: u64| (#[trigger] storage.timite_at(id)).is_none() by {
                lemma_lookup_absent(storage.timite_rows(), spec_timite(id));
            }
            assert forall|id: u64| (#[trigger] storage.abilities_at(id)).is_none() by {
                lemma_lookup_absent(storage.ability_rows(), spec_timite_abilities(id));
            }
            assert forall|id: u64| (#[trigger] storage.message_at(id)).is_none() by {
                lemma_lookup_absent(storage.message_rows(), spec_message(id));
            }
            assert forall|id: u64| (#[trigger] storage.call_at(id)).is_none() by {
                lemma_lookup_absent(storage.call_rows(), spec_ability_call(id));
            }
            assert forall|id: u64| (#[trigger] storage.event_at(id)).is_none() by {
                lemma_lookup_absent(storage.event_rows(), spec_timeline_event(id));
            }
        }
        storage
    }

    /// Stores a participant under its id, in place of the one that was there.
    pub fn store_timite(&mut self, timite: &Timite)
        requires
            old(self).wf(),
        ensures
            final(self).wf(),
            final(self).timite_at(timite.id) == Some(*timite),
            forall|id: u64|
                id != timite.id ==> #[trigger] final(self).timite_at(id) == old(self).timite_at(id),
            final(self).same_but_timites(*old(self)),
    {
        let key = key::timite(timite.id);
        proof {
            let rows = self.timite_rows();
            let idf = timite_idf();
            assert(idf(*timite) == timite.id);
            lemma_id_keyed_put(rows, spec_timite_prefix(), idf, *timite);
            lemma_put_rows(rows, key@, *timite);
            assert forall|id: u64| id != timite.id implies spec_timite(id) != key@ by {
                lemma_id_key_order(spec_timite_prefix(), id, timite.id);
            }
        }
        self.timites.store_data(key.as_slice(), timite.clone());
    }

    /// Reads the participant `timite_id`.
    pub fn fetch_timite(&self, timite_id: u64) -> (r: Option<Timite>)
        requires
            self.wf(),
        ensures
            r == self.timite_at(timite_id),
    {
        let key = key::timite(timite_id);
        match self.timites.fetch_data(key.as_slice()) {
            Some(timite) => Some(timite.clone()),
            None => None,
        }
    }

    /// The largest id of a stored participant, 0 where there is none.
    pub fn fetch_max_timite_id(&self) -> (r: u64)
        requires
            self.wf(),
        ensures
            forall|id: u64| (#[trigger] self.timite_at(id)).is_some() ==> id <= r,
            r != 0 ==> self.timite_at(r).is_some(),
    {
        let prefix = key::timite_prefix();
        proof {
            let idf = timite_idf();
            lemma_id_keyed_all_prefixed(self.timite_rows(), prefix@, idf);
            lemma_id_keyed_top(self.timite_rows(), prefix@, idf);
            let rows = self.timite_rows();
            if rows.len() > 0 {
                assert(idf(rows.last().1) == rows.last().1.id);
            }
            assert forall|id: u64| (#[trigger] self.timite_at(id)).is_some() implies rows.len() > 0
                && id <= rows.last().1.id by {
                assert(self.timite_at(id) == lookup(rows, id_key(prefix@, id)));
            }
            if rows.len() > 0 {
                assert(self.timite_at(rows.last().1.id) == lookup(
                    rows,
                    id_key(prefix@, rows.last().1.id),
                ));
            }
        }
        match self.timites.fetch_max_data(prefix.as_slice()) {
            Some(timite) => timite.id,
            None => 0,
        }
    }

    /// Stores the ability set of `timite_id`, in place of the one it had declared.
    pub fn store_timite_abilities(&mut self, timite_id: u64, abilities: &Vec<Ability>)
        requires
            old(self).wf(),
        ensures
            final(self).wf(),
            final(self).abilities_at(timite_id).is_some(),
            final(self).abilities_at(timite_id).unwrap().timite_id == timite_id,
            ability_views(final(self).abilities_at(timite_id).unwrap().abilities@) == ability_views(
                abilities@,
            ),
            forall|id: u64|
                id != timite_id ==> #[trigger] final(self).abilities_at(id) == old(
                    self,
                ).abilities_at(id),
            final(self).same_but_abilities(*old(self)),
    {
        let record = StoredTimiteAbilities { timite_id, abilities: clone_abilities(abilities) };
        let key = key::timite_abilities(timite_id);
        proof {
            let rows = self.ability_rows();
            let idf = stored_abilities_idf();
            assert(idf(record) == timite_id);
            lemma_id_keyed_put(rows, spec_timite_abilities_prefix(), idf, record);
            lemma_put_rows(rows, key@, record);
            assert forall|id: u64| id != timite_id implies spec_timite_abilities(id) != key@ by {
                lemma_id_key_order(spec_timite_abilities_prefix(), id, timite_id);
            }
        }
        self.abilities.store_data(key.as_slice(), record);
    }

    /// The abilities that `timite_id` declared last, none where it declared nothing.
    pub fn fetch_timite_abilities(&self, timite_id: u64) -> (r: Vec<Ability>)
        requires
            self.wf(),
        ensures
            match self.abilities_at(timite_id) {
                Some(record) => ability_views(r@) == ability_views(record.abilities@),
                None => r@.len() == 0,
            },
    {
        let key = key::timite_abilities(timite_id);
        match self.abilities.fetch_data(key.as_slice()) {
            Some(record) => clone_abilities(&record.abilities),
            None => Vec::new(),
        }
    }

    /// Stores a session under its credential.
    pub fn store_session(&mut self, session: &Session)
        requires
            old(self).wf(),
        ensures
            final(self).wf(),
            final(self).session_at(session.key@) == Some(*session),
            forall|k: Seq<char>|
                k != session.key@ ==> #[trigger] final(self).session_at(k) == old(self).session_at(
                    k,
                ),
            final(self).same_but_sessions(*old(self)),
    {
        let key = key::session(session.key.as_str());
        proof {
            let rows = self.session_rows();
            lemma_put_rows(rows, key@, *session);
            let after = put_rows(rows, key@, *session);
            crate::kvstore::lemma_slot_exists(rows, key@);
            let p = crate::kvstore::slot(rows, key@);
            assert forall|i: int| #![trigger after[i]] 0 <= i < after.len() implies after[i].0
                == spec_session(after[i].1.key@) by {
                if crate::kvstore::has_key(rows, key@) {
                    if i != p {
                        assert(after[i] == rows[i]);
                    }
                } else {
                    if i < p {
                        assert(after[i] == rows[i]);
                    } else if i > p {
                        assert(after[i] == rows[i - 1]);
                    }
                }
            }
            assert forall|k: Seq<char>| k != session.key@ implies spec_session(k) != key@ by {
                lemma_session_key_injective(k, session.key@);
            }
        }
        self.sessions.store_secret(key.as_slice(), session.clone());
    }

    /// Reads the session with the credential `key`.
    pub fn find_session(&self, key: &str) -> (r: Option<Session>)
        requires
            self.wf(),
        ensures
            r == self.session_at(key@),
    {
        let at = key::session(key);
        match self.sessions.fetch_secret(at.as_slice()) {
            Some(session) => Some(session.clone()),
            None => None,
        }
    }

    /// The declared ability sets whose owner is a stored participant, each
    /// with that participant, in the order of the owners' ids.
    pub fn list_abilities(&self) -> (r: Vec<TimiteAbilities>)
        requires
            self.wf(),
        ensures
            r@.map_values(|entry: TimiteAbilities| listed_view(entry)) == self.listed(),
    {
        let prefix = key::timite_abilities_prefix();
        let list = self.abilities.fetch_all_data(prefix.as_slice());
        proof {
            lemma_id_keyed_all_prefixed(self.ability_rows(), prefix@, stored_abilities_idf());
        }
        let ghost sets = self.declared();
        let mut result: Vec<TimiteAbilities> = Vec::new();
        let mut i: usize = 0;
        assert(sets.subrange(0, 0) =~= Seq::<StoredTimiteAbilities>::empty());
        assert(result@.map_values(|entry: TimiteAbilities| listed_view(entry)) =~= self.listed_of(
            sets.subrange(0, 0),
        ));
        while i < list.len()
            invariant
                self.wf(),
                i <= list.len(),
                sets == self.declared(),
                borrowed(list@) == sets,
                result@.map_values(|entry: TimiteAbilities| listed_view(entry)) == self.listed_of(
                    sets.subrange(0, i as int),
                ),
            decreases list.len() - i,
        {
            let tc = list[i];
            let ghost held = result@;
            proof {
                assert(borrowed(list@)[i as int] == *tc);
                assert(sets.subrange(0, i + 1) =~= sets.subrange(0, i as int).push(*tc));
                self.lemma_listed_push(sets.subrange(0, i as int), *tc);
            }
            if let Some(timite) = self.fetch_timite(tc.timite_id) {
                let entry = TimiteAbilities { timite, abilities: clone_abilities(&tc.abilities) };
                result.push(entry);
                assert(result@.map_values(|entry: TimiteAbilities| listed_view(entry))
                    =~= held.map_values(|entry: TimiteAbilities| listed_view(entry)).push(
                    listed_view(entry),
                ));
            }
            i += 1;
        }
        assert(sets.subrange(0, i as int) =~= sets);
        result
    }

    /// Appends a message to the log under `msg_id`. An id is written once.
    pub fn store_message(&mut self, msg_id: u64, message: &Message) -> (r: Result<
        (),
        TimStorageError,
    >)
        requires
            old(self).wf(),
        ensures
            final(self).wf(),
            final(self).same_but_messages(*old(self)),
            match r {
                Ok(_) => {
                    &&& old(self).message_at(msg_id).is_none()
                    &&& final(self).message_at(msg_id) == Some(
                        Message { id: msg_id, sender_id: message.sender_id, content: message.content },
                    )
                    &&& forall|id: u64|
                        id != msg_id ==> #[trigger] final(self).message_at(id) == old(
                            self,
                        ).message_at(id)
                },
                Err(e) => {
                    &&& e == TimStorageError::KvStore(KvStoreError::WriteOnce)
                    &&& old(self).message_at(msg_id).is_some()
                    &&& final(self).message_rows() == old(self).message_rows()
                },
            },
    {
        let record = Message {
            id: msg_id,
            sender_id: message.sender_id,
            content: message.content.clone(),
        };
        let key = key::message(msg_id);
        proof {
            let rows = self.message_rows();
            let idf = message_idf();
            assert(idf(record) == msg_id);
            lemma_id_keyed_put(rows, spec_message_prefix(), idf, record);
            lemma_put_rows(rows, key@, record);
            assert forall|id: u64| id != msg_id implies spec_message(id) != key@ by {
                lemma_id_key_order(spec_message_prefix(), id, msg_id);
            }
        }
        match self.messages.store_log(key.as_slice(), record) {
            Ok(_) => Ok(()),
            Err(e) => Err(TimStorageError::KvStore(e)),
        }
    }

    /// Reads the message `msg_id`.
    pub fn fetch_message(&self, msg_id: u64) -> (r: Option<Message>)
        requires
            self.wf(),
        ensures
            r == self.message_at(msg_id),
    {
        let key = key::message(msg_id);
        match self.messages.fetch_log(key.as_slice()) {
            Some(message) => Some(message.clone()),
            None => None,
        }
    }

    /// The largest id of a stored message, 0 where there is none.
    pub fn fetch_max_message_id(&self) -> (r: u64)
        requires
            self.wf(),
        ensures
            forall|id: u64| (#[trigger] self.message_at(id)).is_some() ==> id <= r,
            r != 0 ==> self.message_at(r).is_some(),
    {
        let prefix = key::message_prefix();
        proof {
            let idf = message_idf();
            let rows = self.message_rows();
            lemma_id_keyed_all_prefixed(rows, prefix@, idf);
            lemma_id_keyed_top(rows, prefix@, idf);
            if rows.len() > 0 {
                assert(idf(rows.last().1) == rows.last().1.id);
                assert(self.message_at(rows.last().1.id) == lookup(
                    rows,
                    id_key(prefix@, rows.last().1.id),
                ));
            }
            assert forall|id: u64| (#[trigger] self.message_at(id)).is_some() implies rows.len()
                > 0 && id <= rows.last().1.id by {
                assert(self.message_at(id) == lookup(rows, id_key(prefix@, id)));
            }
        }
        match self.messages.fetch_max_log(prefix.as_slice()) {
            Some(message) => message.id,
            None => 0,
        }
    }

    /// Appends an ability call to the log under `call_ability_id`, which the
    /// stored record carries. An id is written once.
    pub fn store_call_ability(&mut self, call_ability_id: u64, call_ability: &CallAbility) -> (r:
        Result<(), TimStorageError>)
        requires
            old(self).wf(),
        ensures
            final(self).wf(),
            final(self).same_but_calls(*old(self)),
            match r {
                Ok(_) => {
                    &&& old(self).call_at(call_ability_id).is_none()
                    &&& final(self).call_at(call_ability_id) == Some(
                        CallAbility {
                            call_ability_id,
                            sender_id: call_ability.sender_id,
                            timite_id: call_ability.timite_id,
                            name: call_ability.name,
                            payload: call_ability.payload,
                        },
                    )
                    &&& forall|id: u64|
                        id != call_ability_id ==> #[trigger] final(self).call_at(id) == old(
                            self,
                        ).call_at(id)
                },
                Err(e) => {
                    &&& e == TimStorageError::KvStore(KvStoreError::WriteOnce)
                    &&& old(self).call_at(call_ability_id).is_some()
                    &&& final(self).call_rows() == old(self).call_rows()
                },
            },
    {
        let record = CallAbility {
            call_ability_id,
            sender_id: call_ability.sender_id,
            timite_id: call_ability.timite_id,
            name: call_ability.name.clone(),
            payload: call_ability.payload.clone(),
        };
        let key = key::ability_call(call_ability_id);
        proof {
            let rows = self.call_rows();
            let idf = call_idf();
            assert(idf(record) == call_ability_id);
            lemma_id_keyed_put(rows, spec_ability_call_prefix(), idf, record);
            lemma_put_rows(rows, key@, record);
            assert forall|id: u64| id != call_ability_id implies spec_ability_call(id) != key@ by {
                lemma_id_key_order(spec_ability_call_prefix(), id, call_ability_id);
            }
        }
        match self.calls.store_log(key.as_slice(), record) {
            Ok(_) => Ok(()),
            Err(e) => Err(TimStorageError::KvStore(e)),
        }
    }

    /// Reads the ability call `call_ability_id`.
    pub fn fetch_call_ability(&self, call_ability_id: u64) -> (r: Option<CallAbility>)
        requires
            self.wf(),
        ensures
            r == self.call_at(call_ability_id),
    {
        let key = key::ability_call(call_ability_id);
        match self.calls.fetch_log(key.as_slice()) {
            Some(call) => Some(call.clone()),
            None => None,
        }
    }

    /// The largest id of a stored ability call, 0 where there is none.
    pub fn fetch_max_call_ability_id(&self) -> (r: u64)
        requires
            self.wf(),
        ensures
            forall|id: u64| (#[trigger] self.call_at(id)).is_some() ==> id <= r,
            r != 0 ==> self.call_at(r).is_some(),
    {
        let prefix = key::ability_call_prefix();
        proof {
            let idf = call_idf();
            let rows = self.call_rows();
            lemma_id_keyed_all_prefixed(rows, prefix@, idf);
            lemma_id_keyed_top(rows, prefix@, idf);
            if rows.len() > 0 {
                assert(idf(rows.last().1) == rows.last().1.call_ability_id);
                assert(self.call_at(rows.last().1.call_ability_id) == lookup(
                    rows,
                    id_key(prefix@, rows.last().1.call_ability_id),
                ));
            }
            assert forall|id: u64| (#[trigger] self.call_at(id)).is_some() implies rows.len() > 0
                && id <= rows.last().1.call_ability_id by {
                assert(self.call_at(id) == lookup(rows, id_key(prefix@, id)));
            }
        }
        match self.calls.fetch_max_log(prefix.as_slice()) {
            Some(call) => call.call_ability_id,
            None => 0,
        }
    }

    /// Appends an event to the timeline under its id. An id is written once;
    /// an event above every stored id goes to the end of the timeline.
    pub fn store_space_event(&mut self, event: &SpaceEvent) -> (r: Result<(), TimStorageError>)
        requires
            old(self).wf(),
        ensures
            final(self).wf(),
            final(self).same_but_events(*old(self)),
            match r {
                Ok(_) => {
                    &&& old(self).event_at(event.metadata.id).is_none()
                    &&& final(self).event_at(event.metadata.id) == Some(*event)
                    &&& forall|id: u64|
                        id != event.metadata.id ==> #[trigger] final(self).event_at(id) == old(
                            self,
                        ).event_at(id)
                    &&& final(self).events().len() == old(self).events().len() + 1
                    &&& (old(self).events().len() == 0 || old(self).last_event_id()
                        < event.metadata.id) ==> final(self).events() == old(self).events().push(
                        *event,
                    )
                },
                Err(e) => {
                    &&& e == TimStorageError::KvStore(KvStoreError::WriteOnce)
                    &&& old(self).event_at(event.metadata.id).is_some()
                    &&& final(self).event_rows() == old(self).event_rows()
                },
            },
    {
        let key = key::timeline_event(event.metadata.id);
        proof {
            let rows = self.event_rows();
            let idf = event_idf();
            assert(idf(*event) == event.metadata.id);
            lemma_id_keyed_put(rows, spec_timeline_prefix(), idf, *event);
            lemma_put_rows(rows, key@, *event);
            assert forall|id: u64| id != event.metadata.id implies spec_timeline_event(id)
                != key@ by {
                lemma_id_key_order(spec_timeline_prefix(), id, event.metadata.id);
            }
            if rows.len() == 0 || self.last_event_id() < event.metadata.id {
                lemma_id_keyed_ascending(rows, spec_timeline_prefix(), idf);
                let log = values_of(rows);
                assert forall|i: int| #![trigger rows[i]] 0 <= i < rows.len() implies idf(rows[i].1)
                    < idf(*event) by {
                    if i < rows.len() - 1 {
                        assert(idf(log[i]) < idf(log[rows.len() - 1]));
                    }
                    assert(log[rows.len() - 1] == rows[rows.len() - 1].1);
                }
                lemma_id_keyed_append(rows, spec_timeline_prefix(), idf, *event);
                assert(values_of(rows.push((key@, *event))) =~= values_of(rows).push(*event));
            }
        }
        match self.events.store_log(key.as_slice(), event.clone()) {
            Ok(_) => Ok(()),
            Err(e) => Err(TimStorageError::KvStore(e)),
        }
    }

    /// Reads the timeline event `id`.
    pub fn fetch_space_event(&self, id: u64) -> (r: Option<SpaceEvent>)
        requires
            self.wf(),
        ensures
            r == self.event_at(id),
    {
        let key = key::timeline_event(id);
        match self.events.fetch_log(key.as_slice()) {
            Some(event) => Some(event.clone()),
            None => None,
        }
    }

    /// The largest id in the timeline, 0 where it is empty.
    pub fn fetch_max_event_id(&self) -> (r: u64)
        requires
            self.wf(),
        ensures
            r == self.last_event_id(),
            forall|id: u64| (#[trigger] self.event_at(id)).is_some() ==> id <= r,
            r != 0 ==> self.event_at(r).is_some(),
    {
        let prefix = key::timeline_prefix();
        proof {
            let idf = event_idf();
            let rows = self.event_rows();
            lemma_id_keyed_all_prefixed(rows, prefix@, idf);
            lemma_id_keyed_top(rows, prefix@, idf);
            if rows.len() > 0 {
                assert(idf(rows.last().1) == rows.last().1.metadata.id);
                assert(self.event_at(rows.last().1.metadata.id) == lookup(
                    rows,
                    id_key(prefix@, rows.last().1.metadata.id),
                ));
                assert(self.events().last() == rows.last().1);
            }
            assert forall|id: u64| (#[trigger] self.event_at(id)).is_some() implies rows.len() > 0
                && id <= rows.last().1.metadata.id by {
                assert(self.event_at(id) == lookup(rows, id_key(prefix@, id)));
            }
        }
        match self.events.fetch_max_log(prefix.as_slice()) {
            Some(event) => event.metadata.id,
            None => 0,
        }
    }

    /// A page of the timeline, in ascending order of the ids: with `offset` 0
    /// the events of the last `size` ids, else at most `size` events from the
    /// id `offset` on.
    pub fn timeline(&self, offset: u64, size: u32) -> (r: Vec<SpaceEvent>)
        requires
            self.wf(),
        ensures
            r@ == timeline_page(self.events(), offset, size),
    {
        if size == 0 {
            return Vec::new();
        }
        let prefix = key::timeline_prefix();
        proof {
            let rows = self.event_rows();
            lemma_id_keyed_all_prefixed(rows, prefix@, event_idf());
            if rows.len() > 0 {
                assert(self.events().last() == rows.last().1);
            }
        }
        let start_id = if offset == 0 {
            let last_id = match self.events.fetch_max_log(prefix.as_slice()) {
                Some(last_event) => last_event.metadata.id,
                None => {
                    return Vec::new();
                },
            };
            let span: u64 = (size - 1) as u64;
            if last_id >= span {
                last_id - span
            } else {
                0
            }
        } else {
            offset
        };
        let start = key::timeline_event(start_id);
        proof {
            lemma_id_keyed_from(self.event_rows(), prefix@, event_idf(), start_id);
        }
        let page = self.events.fetch_log_range(prefix.as_slice(), start.as_slice(), size as usize);
        let mut out: Vec<SpaceEvent> = Vec::new();
        let mut i: usize = 0;
        while i < page.len()
            invariant
                i <= page.len(),
                out@.len() == i,
                forall|j: int| 0 <= j < i ==> out@[j] == *page@[j],
            decreases page.len() - i,
        {
            out.push(page[i].clone());
            i += 1;
        }
        assert(out@ =~= borrowed(page@));
        out
    }

    /// The participant found under an id has that id.
    pub proof fn lemma_timite_at(&self, id: u64)
        requires
            self.wf(),
        ensures
            self.timite_at(id).is_some() ==> self.timite_at(id).unwrap().id == id,
    {
        let idf = timite_idf();
        lemma_id_keyed_find(self.timite_rows(), spec_timite_prefix(), idf, id);
        assert(self.timite_at(id) == lookup(self.timite_rows(), id_key(spec_timite_prefix(), id)));
        if self.timite_at(id).is_some() {
            assert(idf(self.timite_at(id).unwrap()) == self.timite_at(id).unwrap().id);
        }
    }

    /// No id of the timeline is above the id of its last event.
    pub proof fn lemma_last_event_id(&self)
        requires
            self.wf(),
        ensures
            forall|id: u64| (#[trigger] self.event_at(id)).is_some() ==> id <= self.last_event_id(),
            self.events().len() == 0 ==> forall|id: u64| (#[trigger] self.event_at(id)).is_none(),
    {
        let rows = self.event_rows();
        let idf = event_idf();
        lemma_id_keyed_top(rows, spec_timeline_prefix(), idf);
        if rows.len() > 0 {
            assert(self.events().last() == rows.last().1);
            assert(idf(rows.last().1) == rows.last().1.metadata.id);
        }
        assert forall|id: u64| (#[trigger] self.event_at(id)).is_some() implies id
            <= self.last_event_id() by {
            assert(self.event_at(id) == lookup(rows, id_key(spec_timeline_prefix(), id)));
        }
        if rows.len() == 0 {
            assert forall|id: u64| (#[trigger] self.event_at(id)).is_none() by {
                assert(self.event_at(id) == lookup(rows, id_key(spec_timeline_prefix(), id)));
            }
        }
    }

    /// The timeline is in ascending order of the ids, and an event is found
    /// under its id exactly where the timeline holds it.
    pub proof fn lemma_events(&self)
        requires
            self.wf(),
        ensures
            ascending(self.events(), event_idf()),
            forall|i: int|
                0 <= i < self.events().len() ==> self.event_at(
                    (#[trigger] self.events()[i]).metadata.id,
                ) == Some(self.events()[i]),
            forall|id: u64|
                (#[trigger] self.event_at(id)).is_some() ==> self.event_at(id).unwrap().metadata.id
                    == id && self.events().contains(self.event_at(id).unwrap()),
    {
        let rows = self.event_rows();
        let idf = event_idf();
        lemma_id_keyed_ascending(rows, spec_timeline_prefix(), idf);
        assert forall|i: int| 0 <= i < self.events().len() implies self.event_at(
            (#[trigger] self.events()[i]).metadata.id,
        ) == Some(self.events()[i]) by {
            assert(self.events()[i] == rows[i].1);
            assert(rows[i].0 == id_key(spec_timeline_prefix(), idf(rows[i].1)));
            crate::kvstore::lemma_lookup(rows, rows[i].0, i);
        }
        assert forall|id: u64| (#[trigger] self.event_at(id)).is_some() implies self.event_at(
            id,
        ).unwrap().metadata.id == id && self.events().contains(self.event_at(id).unwrap()) by {
            lemma_id_keyed_find(rows, spec_timeline_prefix(), idf, id);
            let v = self.event_at(id).unwrap();
            let i = choose|i: int|
                0 <= i < rows.len() && #[trigger] rows[i] == (id_key(spec_timeline_prefix(), id), v);
            assert(self.events()[i] == v);
        }
    }
}

/// Different credentials have different keys.
pub proof fn lemma_session_key_injective(a: Seq<char>, b: Seq<char>)
    ensures
        spec_session(a) == spec_session(b) <==> a == b,
{
    if spec_session(a) == spec_session(b) {
        crate::bytes::lemma_lex_common_prefix(
            crate::tim_storage::key::spec_session_prefix(),
            vstd::utf8::encode_utf8(a),
            vstd::utf8::encode_utf8(b),
        );
        vstd::utf8::encode_utf8_decode_utf8(a);
        vstd::utf8::encode_utf8_decode_utf8(b);
    }
}

} // verus!
