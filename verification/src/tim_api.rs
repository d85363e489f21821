//! The facade of the space: checks the shape of a request, and hands it to
//! the service that answers it.

use vstd::prelude::*;
use tokio::sync::mpsc::Receiver;
use crate::api::{
    ability_views, DeclareAbilitiesReq, DeclareAbilitiesRes, ErrorCode, EventData, GetTimelineReq,
    GetTimelineRes, ListAbilitiesRes, SendCallAbilityOutcomeReq, SendCallAbilityOutcomeRes,
    SendCallAbilityReq, SendCallAbilityRes, SendMessageReq, SendMessageRes, Session, SpaceEvent,
    SubscribeToSpaceReq, Timestamp, Timite, TimiteAbilities, TrustedConnectReq, TrustedConnectRes,
    TrustedRegisterReq, TrustedRegisterRes,
};
use crate::secret::is_session_key;
use crate::text::{is_blank, text_is_blank};
use crate::tim_ability::{TimAbility, TimAbilityError};
use crate::tim_message::{TimMessage, TimMessageError};
use crate::tim_session::{TimSession, TimSessionError};
use crate::tim_space::{TimSpace, TimSpaceError};
use crate::tim_space::{marked, Subscriber};
use crate::tim_space::registry::survivors_of;
use crate::tim_storage::{listed_view, timeline_page, TimStorage};
use crate::tim_timite::{TimTimite, TimTimiteError};

verus! {

/// What the facade can report.
#[derive(Debug, PartialEq, Eq)]
pub enum TimApiError {
    SessionError(TimSessionError),
    TimiteError(TimTimiteError),
    SpaceError(TimSpaceError),
    AbilityError(TimAbilityError),
    MessageError(TimMessageError),
    CallAbilityTargetMismatch { call_ability_timite: u64, sender_timite: u64 },
    InvalidArgError(String),
}

/// The participant `id` sends, calls or is called in `event`.
pub open spec fn event_names(event: SpaceEvent, id: u64) -> bool {
    match event.data {
        EventData::NewMessage(message) => message.sender_id == id,
        EventData::CallAbility(call) => call.sender_id == id || call.timite_id == id,
        _ => false,
    }
}

/// The participant `id` sends, calls or is called in one of `events`.
pub open spec fn events_name(events: Seq<SpaceEvent>, id: u64) -> bool {
    exists|i: int| 0 <= i < events.len() && event_names(#[trigger] events[i], id)
}

/// The ids rise strictly along the sequence.
pub open spec fn rising(ids: Seq<u64>) -> bool {
    forall|i: int, j: int| 0 <= i < j < ids.len() ==> ids[i] < ids[j]
}

/// Puts `id` at its place in rising `ids`, where they do not hold it yet.
pub fn insert_id(ids: &mut Vec<u64>, id: u64)
    requires
        rising(old(ids)@),
    ensures
        rising(final(ids)@),
        forall|x: u64| final(ids)@.contains(x) <==> old(ids)@.contains(x) || x == id,
{
    let mut i: usize = 0;
    while i < ids.len() && ids[i] < id
        invariant
            i <= ids.len(),
            ids@ == old(ids)@,
            rising(ids@),
            forall|j: int| 0 <= j < i ==> ids@[j] < id,
        decreases ids.len() - i,
    {
        i += 1;
    }
    let ghost before = ids@;
    if i < ids.len() && ids[i] == id {
        assert forall|x: u64| ids@.contains(x) <==> before.contains(x) || x == id by {
            if x == id {
                assert(ids@[i as int] == x);
            }
        }
        return ;
    }
    ids.insert(i, id);
    proof {
        let after = ids@;
        assert forall|a: int, b: int| 0 <= a < b < after.len() implies after[a] < after[b] by {
            if b < i {
                assert(after[a] == before[a] && after[b] == before[b]);
            } else if b == i {
                assert(after[a] == before[a]);
            } else if a < i {
                assert(after[a] == before[a]);
                assert(after[b] == before[b - 1]);
                assert(before[i as int] <= before[b - 1]) by {
                    if (i as int) < b - 1 {
                        assert(before[i as int] < before[b - 1]);
                    }
                }
            } else if a == i {
                assert(after[b] == before[b - 1]);
                assert(before[i as int] <= before[b - 1]) by {
                    if (i as int) < b - 1 {
                        assert(before[i as int] < before[b - 1]);
                    }
                }
            } else {
                assert(after[a] == before[a - 1] && after[b] == before[b - 1]);
            }
        }
        assert forall|x: u64| after.contains(x) <==> before.contains(x) || x == id by {
            if after.contains(x) {
                let k = choose|k: int| 0 <= k < after.len() && after[k] == x;
                if k < i {
                    assert(before[k] == x);
                } else if k > i {
                    assert(before[k - 1] == x);
                }
            }
            if before.contains(x) {
                let k = choose|k: int| 0 <= k < before.len() && before[k] == x;
                if k < i {
                    assert(after[k] == x);
                } else {
                    assert(after[k + 1] == x);
                }
            }
            if x == id {
                assert(after[i as int] == x);
            }
        }
    }
}

/// The ids of the participants that send, call or are called in `events`,
/// each once, in rising order.
pub fn collect_timite_ids(events: &Vec<SpaceEvent>) -> (ids: Vec<u64>)
    ensures
        rising(ids@),
        forall|id: u64| ids@.contains(id) <==> events_name(events@, id),
{
    let mut ids: Vec<u64> = Vec::new();
    let mut i: usize = 0;
    while i < events.len()
        invariant
            i <= events.len(),
            rising(ids@),
            forall|id: u64| ids@.contains(id) <==> events_name(events@.subrange(0, i as int), id),
        decreases events.len() - i,
    {
        let ghost seen = events@.subrange(0, i as int);
        let ghost more = events@.subrange(0, i + 1);
        let ghost held = ids@;
        match &events[i].data {
            EventData::NewMessage(message) => {
                insert_id(&mut ids, message.sender_id);
            },
            EventData::CallAbility(call_ability) => {
                insert_id(&mut ids, call_ability.sender_id);
                insert_id(&mut ids, call_ability.timite_id);
            },
            _ => {},
        }
        proof {
            assert forall|id: u64| ids@.contains(id) <==> events_name(more, id) by {
                if events_name(more, id) {
                    let k = choose|k: int| 0 <= k < more.len() && event_names(#[trigger] more[k], id);
                    if k < i {
                        assert(seen[k] == more[k]);
                        assert(events_name(seen, id));
                    }
                }
                if events_name(seen, id) {
                    let k = choose|k: int| 0 <= k < seen.len() && event_names(#[trigger] seen[k], id);
                    assert(more[k] == seen[k]);
                }
                if event_names(events@[i as int], id) {
                    assert(more[i as int] == events@[i as int]);
                }
            }
        }
        i += 1;
    }
    assert(events@.subrange(0, i as int) =~= events@);
    ids
}

/// The facade and the services behind it.
pub struct TimApi {
    storage: TimStorage,
    t_session: TimSession,
    t_space: TimSpace,
    t_timite: TimTimite,
    t_ability: TimAbility,
    t_message: TimMessage,
}

impl TimApi {
    /// The records of the space.
    pub closed spec fn storage(&self) -> TimStorage {
        self.storage
    }

    /// The space.
    pub closed spec fn space(&self) -> TimSpace {
        self.t_space
    }

    /// The registry of participants.
    pub closed spec fn timites(&self) -> TimTimite {
        self.t_timite
    }

    /// The ability coordinator.
    pub closed spec fn abilities(&self) -> TimAbility {
        self.t_ability
    }

    /// The message service.
    pub closed spec fn messages(&self) -> TimMessage {
        self.t_message
    }

    /// Every service is in order, and none will give out an id that the
    /// storage holds already.
    pub open spec fn wf(&self) -> bool {
        &&& self.space().inv(&self.storage())
        &&& self.timites().inv(&self.storage())
        &&& self.abilities().inv(&self.storage())
        &&& self.messages().inv(&self.storage())
    }

    /// Starts the services over `storage`: each continues the ids that the
    /// storage holds, and nobody is subscribed.
    pub fn new(storage: TimStorage) -> (api: Self)
        requires
            storage.wf(),
        ensures
            api.wf(),
            api.storage() == storage,
            api.space().counter() == storage.last_event_id(),
            api.space().subscribers().len() == 0,
            api.timites().counter() != 0 ==> storage.timite_at(api.timites().counter()).is_some(),
            api.messages().counter() != 0 ==> storage.message_at(
                api.messages().counter(),
            ).is_some(),
            api.abilities().counter() != 0 ==> storage.call_at(api.abilities().counter()).is_some(),
    {
        let t_space = TimSpace::new(&storage);
        let t_timite = TimTimite::new(&storage);
        let t_ability = TimAbility::new(&storage);
        let t_message = TimMessage::new(&storage);
        TimApi { storage, t_session: TimSession::new(), t_space, t_timite, t_ability, t_message }
    }

    /// Stops the services and hands the records back.
    pub fn into_storage(self) -> (storage: TimStorage)
        ensures
            storage == self.storage(),
    {
        self.storage
    }

    /// The records of the space, to read.
    pub fn records(&self) -> (storage: &TimStorage)
        ensures
            *storage == self.storage(),
    {
        &self.storage
    }

    /// The id of the event that was emitted last.
    pub fn last_event_id(&self) -> (id: u64)
        ensures
            id == self.space().counter(),
    {
        self.t_space.last_event_id()
    }

    /// The id of the participant that was created last.
    pub fn last_timite_id(&self) -> (id: u64)
        ensures
            id == self.timites().counter(),
    {
        self.t_timite.last_id()
    }

    /// The id of the message that was taken last.
    pub fn last_message_id(&self) -> (id: u64)
        ensures
            id == self.messages().counter(),
    {
        self.t_message.last_id()
    }

    /// The id of the ability call that was taken last.
    pub fn last_call_ability_id(&self) -> (id: u64)
        ensures
            id == self.abilities().counter(),
    {
        self.t_ability.last_id()
    }

    /// The number of live subscriptions.
    pub fn subscriber_count(&self) -> (n: usize)
        ensures
            n == self.space().subscribers().len(),
    {
        self.t_space.subscriber_count()
    }

    /// Resolves the credential that a request carries to its session.
    pub fn authenticate(&self, token: Option<&str>) -> (r: Option<Session>)
        requires
            self.wf(),
        ensures
            r == match token {
                Some(key) => self.storage().session_at(key@),
                None => None,
            },
    {
        crate::tim_session::extract_session(&self.t_session, &self.storage, token)
    }

    /// Creates a participant with the nick of the request and opens a
    /// session for it. A request without a nick or without client
    /// information is refused and changes nothing.
    pub fn trusted_register(&mut self, req: &TrustedRegisterReq, now: Timestamp) -> (r: Result<
        TrustedRegisterRes,
        TimApiError,
    >)
        requires
            old(self).wf(),
        ensures
            final(self).wf(),
            final(self).messages() == old(self).messages(),
            final(self).abilities() == old(self).abilities(),
            final(self).space() == old(self).space(),
            final(self).storage().event_rows() == old(self).storage().event_rows(),
            final(self).storage().message_rows() == old(self).storage().message_rows(),
            final(self).storage().call_rows() == old(self).storage().call_rows(),
            final(self).storage().ability_rows() == old(self).storage().ability_rows(),
            if req.nick@.len() == 0 || req.client_info.is_none() {
                &&& r is Err
                &&& r.unwrap_err() is InvalidArgError
                &&& *final(self) == *old(self)
            } else {
                match r {
                    Ok(res) => {
                        &&& res.session.is_some()
                        &&& is_session_key(res.session.unwrap().key@)
                        &&& res.session.unwrap().timite_id == old(self).timites().counter() + 1
                        &&& res.session.unwrap().created_at == now
                        &&& res.session.unwrap().client_info == req.client_info.unwrap()
                        &&& final(self).storage().session_at(res.session.unwrap().key@)
                            == res.session
                        &&& final(self).storage().timite_at(res.session.unwrap().timite_id).is_some()
                        &&& final(self).storage().timite_at(
                            res.session.unwrap().timite_id,
                        ).unwrap().nick@ == req.nick@
                        &&& old(self).storage().timite_at(res.session.unwrap().timite_id).is_none()
                    },
                    Err(e) => e is TimiteError && old(self).timites().counter() == u64::MAX,
                }
            },
    {
        if req.nick.as_str().is_empty() {
            return Err(TimApiError::InvalidArgError(String::from_str("nick required")));
        }
        let info = match &req.client_info {
            Some(info) => info,
            None => {
                return Err(TimApiError::InvalidArgError(String::from_str("client info required")));
            },
        };
        let ghost before = self.storage;
        let made = self.t_timite.create(&mut self.storage, req.nick.as_str());
        proof {
            assert forall|id: u64| #[trigger] self.storage.message_at(id) == before.message_at(
                id,
            ) by {}
            assert forall|id: u64| #[trigger] self.storage.call_at(id) == before.call_at(id) by {}
        }
        let timite = match made {
            Ok(timite) => timite,
            Err(e) => {
                return Err(TimApiError::TimiteError(e));
            },
        };
        let ghost created = self.storage;
        let r = self.t_session.create(&mut self.storage, &timite, info, now);
        proof {
            assert forall|id: u64| #[trigger] self.storage.timite_at(id) == created.timite_at(id) by {}
            assert forall|id: u64| #[trigger] self.storage.message_at(id) == created.message_at(
                id,
            ) by {}
            assert forall|id: u64| #[trigger] self.storage.call_at(id) == created.call_at(id) by {}
        }
        match r {
            Ok(session) => Ok(TrustedRegisterRes { session: Some(session) }),
            Err(e) => Err(TimApiError::SessionError(e)),
        }
    }

    /// Opens a session for the participant of the request, where it exists;
    /// says `TimiteNotFound` in the answer where it does not. A request
    /// without a participant, and one for a participant that exists but
    /// without client information, is refused. The stored nick stays as it is.
    pub fn trusted_connect(&mut self, req: &TrustedConnectReq, now: Timestamp) -> (r: Result<
        TrustedConnectRes,
        TimApiError,
    >)
        requires
            old(self).wf(),
        ensures
            final(self).wf(),
            final(self).timites() == old(self).timites(),
            final(self).messages() == old(self).messages(),
            final(self).abilities() == old(self).abilities(),
            final(self).space() == old(self).space(),
            final(self).storage().same_but_sessions(old(self).storage()),
            match req.timite {
                None => r is Err && r.unwrap_err() is InvalidArgError && *final(self) == *old(self),
                Some(timite) => if old(self).storage().timite_at(timite.id).is_none() {
                    &&& r == Ok::<TrustedConnectRes, TimApiError>(
                        TrustedConnectRes { session: None, error: ErrorCode::TimiteNotFound },
                    )
                    &&& *final(self) == *old(self)
                } else if req.client_info.is_none() {
                    r is Err && r.unwrap_err() is InvalidArgError && *final(self) == *old(self)
                } else {
                    &&& r is Ok
                    &&& r.unwrap().error == ErrorCode::Unspecified
                    &&& r.unwrap().session.is_some()
                    &&& is_session_key(r.unwrap().session.unwrap().key@)
                    &&& r.unwrap().session.unwrap().timite_id == timite.id
                    &&& r.unwrap().session.unwrap().created_at == now
                    &&& r.unwrap().session.unwrap().client_info == req.client_info.unwrap()
                    &&& final(self).storage().session_at(r.unwrap().session.unwrap().key@)
                        == r.unwrap().session
                },
            },
    {
        let timite = match &req.timite {
            Some(timite) => timite,
            None => {
                return Err(TimApiError::InvalidArgError(String::from_str("timite required")));
            },
        };
        let stored_timite = self.t_timite.get(&self.storage, timite.id);
        if stored_timite.is_none() {
            return Ok(TrustedConnectRes { session: None, error: ErrorCode::TimiteNotFound });
        }
        let info = match &req.client_info {
            Some(info) => info,
            None => {
                return Err(TimApiError::InvalidArgError(String::from_str("client info required")));
            },
        };
        let ghost before = self.storage;
        let r = self.t_session.create(&mut self.storage, timite, info, now);
        proof {
            assert forall|id: u64| #[trigger] self.storage.timite_at(id) == before.timite_at(id) by {}
            assert forall|id: u64| #[trigger] self.storage.message_at(id) == before.message_at(
                id,
            ) by {}
            assert forall|id: u64| #[trigger] self.storage.call_at(id) == before.call_at(id) by {}
        }
        match r {
            Ok(session) => Ok(
                TrustedConnectRes { session: Some(session), error: ErrorCode::Unspecified },
            ),
            Err(e) => Err(TimApiError::SessionError(e)),
        }
    }

    /// Replaces the ability set of the session's participant by that of the
    /// request.
    pub fn declare_abilities(&mut self, req: &DeclareAbilitiesReq, session: &Session) -> (r: Result<
        DeclareAbilitiesRes,
        TimApiError,
    >)
        requires
            old(self).wf(),
        ensures
            final(self).wf(),
            final(self).timites() == old(self).timites(),
            final(self).messages() == old(self).messages(),
            final(self).abilities() == old(self).abilities(),
            r is Ok,
            final(self).space() == old(self).space(),
            final(self).storage().same_but_abilities(old(self).storage()),
            final(self).storage().abilities_at(session.timite_id).is_some(),
            final(self).storage().abilities_at(session.timite_id).unwrap().timite_id
                == session.timite_id,
            ability_views(final(self).storage().abilities_at(session.timite_id).unwrap().abilities@)
                == ability_views(req.abilities@),
            forall|id: u64|
                id != session.timite_id ==> #[trigger] final(self).storage().abilities_at(id)
                    == old(self).storage().abilities_at(id),
    {
        let ghost before = self.storage;
        self.t_timite.declare_abilities(&mut self.storage, session.timite_id, &req.abilities);
        proof {
            assert forall|id: u64| #[trigger] self.storage.timite_at(id) == before.timite_at(id) by {}
            assert forall|id: u64| #[trigger] self.storage.message_at(id) == before.message_at(
                id,
            ) by {}
            assert forall|id: u64| #[trigger] self.storage.call_at(id) == before.call_at(id) by {}
        }
        Ok(DeclareAbilitiesRes {  })
    }

    /// The declared ability sets, each with its participant.
    pub fn list_abilities(&self) -> (r: Result<ListAbilitiesRes, TimApiError>)
        requires
            self.wf(),
        ensures
            r is Ok,
            r.unwrap().abilities@.map_values(|entry: TimiteAbilities| listed_view(entry))
                == self.storage().listed(),
    {
        let abilities = self.t_ability.list(&self.storage);
        Ok(ListAbilitiesRes { abilities })
    }

    /// Takes a message of the session's participant and publishes it. A
    /// message that holds white space only, or nothing, is refused and
    /// changes nothing.
    pub fn send_message(&mut self, req: &SendMessageReq, session: &Session, now: Timestamp) -> (r:
        Result<SendMessageRes, TimApiError>)
        requires
            old(self).wf(),
        ensures
            final(self).wf(),
            final(self).timites() == old(self).timites(),
            final(self).abilities() == old(self).abilities(),
            final(self).storage().session_rows() == old(self).storage().session_rows(),
            final(self).storage().timite_rows() == old(self).storage().timite_rows(),
            final(self).storage().ability_rows() == old(self).storage().ability_rows(),
            final(self).storage().call_rows() == old(self).storage().call_rows(),
            if is_blank(req.content@) {
                r is Err && r.unwrap_err() is InvalidArgError && *final(self) == *old(self)
            } else {
                match r {
                    Ok(res) => {
                        &&& res.error.is_none()
                        &&& final(self).messages().counter() == old(self).messages().counter() + 1
                        &&& final(self).storage().message_at(final(self).messages().counter())
                            == Some(
                            TimMessage::message_of(
                                old(self).messages().counter() + 1,
                                session.timite_id,
                                req.content,
                            ),
                        )
                        &&& final(self).space().published(
                            &final(self).storage(),
                            &old(self).space(),
                            &old(self).storage(),
                            EventData::NewMessage(
                                TimMessage::message_of(
                                    old(self).messages().counter() + 1,
                                    session.timite_id,
                                    req.content,
                                ),
                            ),
                            now,
                        )
                    },
                    Err(e) => {
                        &&& e is MessageError
                        &&& old(self).messages().counter() == u64::MAX || old(
                            self,
                        ).space().counter() + old(self).space().subscribers().len() >= u64::MAX
                    },
                }
            },
    {
        if text_is_blank(req.content.as_str()) {
            return Err(TimApiError::InvalidArgError(String::from_str("message content required")));
        }
        let ghost before = self.storage;
        let r = self.t_message.process_message(
            &mut self.storage,
            &mut self.t_space,
            req,
            session,
            now,
        );
        proof {
            assert forall|id: u64| #[trigger] self.storage.timite_at(id) == before.timite_at(id) by {}
            assert forall|id: u64| #[trigger] self.storage.call_at(id) == before.call_at(id) by {}
        }
        match r {
            Ok(_) => Ok(SendMessageRes { error: None }),
            Err(e) => Err(TimApiError::MessageError(e)),
        }
    }

    /// Opens a subscription of the session's participant. A session whose
    /// participant is not stored is refused.
    pub fn subscribe(&mut self, req: &SubscribeToSpaceReq, session: &Session, now: Timestamp) -> (r:
        Result<Receiver<SpaceEvent>, TimApiError>)
        requires
            old(self).wf(),
        ensures
            final(self).wf(),
            final(self).timites() == old(self).timites(),
            final(self).messages() == old(self).messages(),
            final(self).abilities() == old(self).abilities(),
            final(self).storage().same_but_events(old(self).storage()),
            match old(self).storage().timite_at(session.timite_id) {
                None => r is Err && r.unwrap_err() is InvalidArgError && *final(self) == *old(self),
                Some(timite) => match r {
                    Ok(_) => exists|joined: TimSpace, live: Seq<Subscriber>|
                        #[trigger] final(self).space().subscribed(
                            &final(self).storage(),
                            &old(self).space(),
                            &old(self).storage(),
                            &joined,
                            live,
                            req.receive_own_messages,
                            *session,
                            timite,
                            now,
                        ),
                    Err(e) => {
                        &&& e is SpaceError
                        &&& old(self).space().counter() + old(self).space().subscribers().len() + 1
                            >= u64::MAX
                    },
                },
            },
    {
        let timite = match self.t_timite.get(&self.storage, session.timite_id) {
            Some(timite) => timite,
            None => {
                return Err(TimApiError::InvalidArgError(String::from_str("timite required")));
            },
        };
        proof {
            self.storage.lemma_timite_at(session.timite_id);
        }
        let ghost before = self.storage;
        let ghost space = self.t_space;
        let r = self.t_space.subscribe(&mut self.storage, req, session, timite, now);
        proof {
            assert forall|id: u64| #[trigger] self.storage.timite_at(id) == before.timite_at(id) by {}
            assert forall|id: u64| #[trigger] self.storage.message_at(id) == before.message_at(
                id,
            ) by {}
            assert forall|id: u64| #[trigger] self.storage.call_at(id) == before.call_at(id) by {}
            if r is Ok {
                let (joined, live) = choose|joined: TimSpace, live: Seq<Subscriber>|
                    #[trigger] self.t_space.subscribed(
                        &self.storage,
                        &space,
                        &before,
                        &joined,
                        live,
                        req.receive_own_messages,
                        *session,
                        timite,
                        now,
                    );
                assert(self.space().subscribed(
                    &self.storage(),
                    &old(self).space(),
                    &old(self).storage(),
                    &joined,
                    live,
                    req.receive_own_messages,
                    *session,
                    timite,
                    now,
                ));
            }
        }
        match r {
            Ok(receiver) => Ok(receiver),
            Err(e) => Err(TimApiError::SpaceError(e)),
        }
    }

    /// A page of the timeline, with the stored participants that send, call
    /// or are called in its events, in rising order of their ids.
    pub fn get_timeline(&self, req: &GetTimelineReq, session: &Session) -> (r: Result<
        GetTimelineRes,
        TimApiError,
    >)
        requires
            self.wf(),
        ensures
            r is Ok,
            r.unwrap().offset == req.offset,
            r.unwrap().size == req.size,
            r.unwrap().events@ == timeline_page(self.storage().events(), req.offset, req.size),
            forall|i: int, j: int|
                0 <= i < j < r.unwrap().timites@.len() ==> r.unwrap().timites@[i].id
                    < r.unwrap().timites@[j].id,
            forall|i: int|
                0 <= i < r.unwrap().timites@.len() ==> self.storage().timite_at(
                    (#[trigger] r.unwrap().timites@[i]).id,
                ) == Some(r.unwrap().timites@[i]) && events_name(
                    r.unwrap().events@,
                    r.unwrap().timites@[i].id,
                ),
            forall|id: u64|
                events_name(r.unwrap().events@, id) && self.storage().timite_at(id).is_some()
                    ==> r.unwrap().timites@.contains(self.storage().timite_at(id).unwrap()),
    {
        let events = self.t_space.timeline(&self.storage, req.offset, req.size);
        let ids = collect_timite_ids(&events);
        let mut timites: Vec<Timite> = Vec::new();
        let mut i: usize = 0;
        while i < ids.len()
            invariant
                self.wf(),
                i <= ids.len(),
                rising(ids@),
                forall|id: u64| ids@.contains(id) <==> events_name(events@, id),
                forall|a: int, b: int|
                    0 <= a < b < timites@.len() ==> timites@[a].id < timites@[b].id,
                forall|a: int|
                    0 <= a < timites@.len() ==> self.storage.timite_at((#[trigger] timites@[a]).id)
                        == Some(timites@[a]) && ids@.contains(timites@[a].id) && (i > 0
                        && timites@[a].id <= ids@[i - 1]),
                forall|k: int|
                    0 <= k < i && self.storage.timite_at(#[trigger] ids@[k]).is_some()
                        ==> timites@.contains(self.storage.timite_at(ids@[k]).unwrap()),
            decreases ids.len() - i,
        {
            let ghost held = timites@;
            proof {
                self.storage.lemma_timite_at(ids@[i as int]);
            }
            if let Some(timite) = self.t_timite.get(&self.storage, ids[i]) {
                timites.push(timite);
                proof {
                    assert forall|k: int|
                        0 <= k < i + 1 && self.storage.timite_at(
                            #[trigger] ids@[k],
                        ).is_some() implies timites@.contains(
                        self.storage.timite_at(ids@[k]).unwrap(),
                    ) by {
                        if k < i {
                            let t = self.storage.timite_at(ids@[k]).unwrap();
                            assert(held.contains(t));
                            let p = choose|p: int| 0 <= p < held.len() && held[p] == t;
                            assert(timites@[p] == t);
                        } else {
                            assert(timites@[timites@.len() - 1] == timite);
                        }
                    }
                    assert forall|a: int, b: int| 0 <= a < b < timites@.len() implies timites@[a].id
                        < timites@[b].id by {
                        if b == timites@.len() - 1 {
                            assert(held[a].id <= ids@[i - 1]);
                            assert(ids@[i - 1] < ids@[i as int]);
                        }
                    }
                }
            } else {
                proof {
                    assert forall|a: int| 0 <= a < timites@.len() implies (#[trigger] timites@[a]).id
                        <= ids@[i as int] by {
                        assert(timites@[a].id <= ids@[i - 1]);
                        assert(ids@[i - 1] < ids@[i as int]);
                    }
                }
            }
            i += 1;
        }
        proof {
            assert forall|id: u64|
                events_name(events@, id) && self.storage.timite_at(
                    id,
                ).is_some() implies timites@.contains(self.storage.timite_at(id).unwrap()) by {
                assert(ids@.contains(id));
                let k = choose|k: int| 0 <= k < ids@.len() && ids@[k] == id;
                assert(self.storage.timite_at(ids@[k]).is_some());
            }
        }
        Ok(GetTimelineRes { offset: req.offset, size: req.size, events, timites })
    }

    /// Takes an ability call of the session's participant and publishes it.
    /// A request without a call is refused and changes nothing.
    pub fn send_call_ability(&mut self, req: &SendCallAbilityReq, session: &Session, now: Timestamp) -> (r:
        Result<SendCallAbilityRes, TimApiError>)
        requires
            old(self).wf(),
        ensures
            final(self).wf(),
            final(self).timites() == old(self).timites(),
            final(self).messages() == old(self).messages(),
            final(self).storage().session_rows() == old(self).storage().session_rows(),
            final(self).storage().timite_rows() == old(self).storage().timite_rows(),
            final(self).storage().ability_rows() == old(self).storage().ability_rows(),
            final(self).storage().message_rows() == old(self).storage().message_rows(),
            match req.call_ability {
                None => r is Err && r.unwrap_err() is InvalidArgError && *final(self) == *old(self),
                Some(call) => match r {
                    Ok(res) => {
                        &&& res.call_ability_id == old(self).abilities().counter() + 1
                        &&& final(self).abilities().counter() == res.call_ability_id
                        &&& final(self).storage().call_at(res.call_ability_id) == Some(
                            TimAbility::call_of(res.call_ability_id as int, session.timite_id, call),
                        )
                        &&& final(self).space().published(
                            &final(self).storage(),
                            &old(self).space(),
                            &old(self).storage(),
                            EventData::CallAbility(
                                TimAbility::call_of(
                                    res.call_ability_id as int,
                                    session.timite_id,
                                    call,
                                ),
                            ),
                            now,
                        )
                    },
                    Err(e) => {
                        &&& e is AbilityError
                        &&& old(self).abilities().counter() == u64::MAX || old(
                            self,
                        ).space().counter() + old(self).space().subscribers().len() >= u64::MAX
                    },
                },
            },
    {
        let call_ability = match &req.call_ability {
            Some(call_ability) => call_ability,
            None => {
                return Err(TimApiError::InvalidArgError(String::from_str("call ability required")));
            },
        };
        let ghost before = self.storage;
        let r = self.t_ability.process_call_ability(
            &mut self.storage,
            &mut self.t_space,
            call_ability,
            session,
            now,
        );
        proof {
            assert forall|id: u64| #[trigger] self.storage.timite_at(id) == before.timite_at(id) by {}
            assert forall|id: u64| #[trigger] self.storage.message_at(id) == before.message_at(
                id,
            ) by {}
        }
        match r {
            Ok(call_ability_id) => Ok(SendCallAbilityRes { call_ability_id }),
            Err(e) => Err(TimApiError::AbilityError(e)),
        }
    }

    /// Takes the outcome of an ability call from the session's participant
    /// and publishes it where that participant is the target of the call. A
    /// request without an outcome, an outcome for a call that is not
    /// recorded, and one from anybody but the target, is refused and changes
    /// nothing.
    pub fn send_call_ability_outcome(
        &mut self,
        req: &SendCallAbilityOutcomeReq,
        session: &Session,
        now: Timestamp,
    ) -> (r: Result<SendCallAbilityOutcomeRes, TimApiError>)
        requires
            old(self).wf(),
        ensures
            final(self).wf(),
            final(self).timites() == old(self).timites(),
            final(self).messages() == old(self).messages(),
            final(self).abilities() == old(self).abilities(),
            final(self).storage().same_but_events(old(self).storage()),
            match req.outcome {
                None => r is Err && r.unwrap_err() is InvalidArgError && *final(self) == *old(self),
                Some(outcome) => match old(self).storage().call_at(outcome.call_ability_id) {
                    None => {
                        &&& r == Err::<SendCallAbilityOutcomeRes, TimApiError>(
                            TimApiError::AbilityError(
                                TimAbilityError::CallAbilityMissing(outcome.call_ability_id),
                            ),
                        )
                        &&& *final(self) == *old(self)
                    },
                    Some(call) => if call.timite_id != session.timite_id {
                        &&& r == Err::<SendCallAbilityOutcomeRes, TimApiError>(
                            TimApiError::CallAbilityTargetMismatch {
                                call_ability_timite: call.timite_id,
                                sender_timite: session.timite_id,
                            },
                        )
                        &&& *final(self) == *old(self)
                    } else {
                        match r {
                            Ok(_) => final(self).space().published(
                                &final(self).storage(),
                                &old(self).space(),
                                &old(self).storage(),
                                EventData::CallAbilityOutcome(outcome),
                                now,
                            ),
                            Err(e) => {
                                &&& e is AbilityError
                                &&& old(self).space().counter() + old(
                                    self,
                                ).space().subscribers().len() >= u64::MAX
                            },
                        }
                    },
                },
            },
    {
        let outcome = match &req.outcome {
            Some(outcome) => outcome,
            None => {
                return Err(
                    TimApiError::InvalidArgError(String::from_str("outcome payload required")),
                );
            },
        };
        let ghost before = self.storage;
        let r = self.t_ability.submit_outcome(
            &mut self.storage,
            &mut self.t_space,
            outcome,
            session,
            now,
        );
        proof {
            assert forall|id: u64| #[trigger] self.storage.timite_at(id) == before.timite_at(id) by {}
            assert forall|id: u64| #[trigger] self.storage.message_at(id) == before.message_at(
                id,
            ) by {}
            assert forall|id: u64| #[trigger] self.storage.call_at(id) == before.call_at(id) by {}
        }
        match r {
            Ok(_) => Ok(SendCallAbilityOutcomeRes {  }),
            Err(TimAbilityError::TargetMismatch { call_target, sender }) => Err(
                TimApiError::CallAbilityTargetMismatch {
                    call_ability_timite: call_target,
                    sender_timite: sender,
                },
            ),
            Err(e) => Err(TimApiError::AbilityError(e)),
        }
    }

    /// Removes every subscription whose queue is closed, announces the
    /// departure of each participant that has none left, and returns the
    /// number of subscriptions that were found closed. Which queues are
    /// closed is for the readers to decide: the space is cleaned of the
    /// sessions that one flag for each subscription marks.
    pub fn cleanup_disconnected(&mut self, now: Timestamp) -> (r: Result<usize, TimApiError>)
        requires
            old(self).wf(),
        ensures
            final(self).wf(),
            final(self).timites() == old(self).timites(),
            final(self).messages() == old(self).messages(),
            final(self).abilities() == old(self).abilities(),
            final(self).storage().same_but_events(old(self).storage()),
            survivors_of(final(self).space().subscribers(), old(self).space().subscribers()),
            match r {
                Ok(removed) => {
                    &&& exists|flags: Seq<bool>|
                        flags.len() == old(self).space().subscribers().len()
                            && final(self).space().cleaned(
                            &final(self).storage(),
                            &old(self).space(),
                            &old(self).storage(),
                            #[trigger] marked(old(self).space().subscribers(), flags),
                            removed,
                            now,
                        )
                    &&& removed == 0 ==> final(self).space().subscribers() == old(
                        self,
                    ).space().subscribers() && final(self).storage().events() == old(
                        self,
                    ).storage().events()
                },
                Err(e) => {
                    &&& e is SpaceError
                    &&& old(self).space().counter() + old(self).space().subscribers().len()
                        > u64::MAX
                },
            },
    {
        let ghost before = self.storage;
        let ghost space = self.t_space;
        let r = self.t_space.cleanup_disconnected(&mut self.storage, now);
        proof {
            assert forall|id: u64| #[trigger] self.storage.timite_at(id) == before.timite_at(id) by {}
            assert forall|id: u64| #[trigger] self.storage.message_at(id) == before.message_at(
                id,
            ) by {}
            assert forall|id: u64| #[trigger] self.storage.call_at(id) == before.call_at(id) by {}
            if r is Ok {
                let subs = space.subscribers();
                let flags = choose|flags: Seq<bool>|
                    flags.len() == subs.len() && self.t_space.cleaned(
                        &self.storage,
                        &space,
                        &before,
                        #[trigger] marked(subs, flags),
                        r.unwrap(),
                        now,
                    );
                assert(self.space().cleaned(
                    &self.storage(),
                    &old(self).space(),
                    &old(self).storage(),
                    marked(old(self).space().subscribers(), flags),
                    r.unwrap(),
                    now,
                ));
            }
        }
        match r {
            Ok(removed) => Ok(removed),
            Err(e) => Err(TimApiError::SpaceError(e)),
        }
    }
}

} // verus!
