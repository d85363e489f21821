//! The sessions of the command workspace: who asked for one, kept under the
//! id that was handed out.

use vstd::prelude::*;
use crate::api::{ClientInfo, Timestamp, Timite};
use crate::updates::{AuthenticateReq, SessionTicket};

verus! {

pub const SESSION_METADATA_KEY: &'static str = "tim-session-id";

/// A session and the client that it was made for.
#[derive(Debug)]
pub struct SessionRecord {
    pub session: SessionTicket,
    pub timite: Timite,
    pub client_info: ClientInfo,
}

/// What a request knows of its session.
#[derive(Debug)]
pub struct SessionContext {
    session_id: Option<String>,
    timite: Option<Timite>,
    client_info: Option<ClientInfo>,
}

impl SessionContext {
    /// The id of the session, where the request has one.
    pub closed spec fn id(&self) -> Option<String> {
        self.session_id
    }

    /// The participant of the session, where the request has one.
    pub closed spec fn participant(&self) -> Option<Timite> {
        self.timite
    }

    /// The client of the session, where the request has one.
    pub closed spec fn client(&self) -> Option<ClientInfo> {
        self.client_info
    }

    /// The context of a request without a session.
    pub fn anonymous() -> (context: Self)
        ensures
            context.id().is_none(),
            context.participant().is_none(),
            context.client().is_none(),
    {
        SessionContext { session_id: None, timite: None, client_info: None }
    }

    pub fn session_id(&self) -> (r: Option<&str>)
        ensures
            match r {
                Some(id) => self.id().is_some() && id@ == self.id().unwrap()@,
                None => self.id().is_none(),
            },
    {
        match &self.session_id {
            Some(id) => Some(id.as_str()),
            None => None,
        }
    }

    pub fn timite(&self) -> (r: Option<&Timite>)
        ensures
            match r {
                Some(timite) => self.participant() == Some(*timite),
                None => self.participant().is_none(),
            },
    {
        self.timite.as_ref()
    }

    pub fn client_info(&self) -> (r: Option<&ClientInfo>)
        ensures
            match r {
                Some(info) => self.client() == Some(*info),
                None => self.client().is_none(),
            },
    {
        self.client_info.as_ref()
    }

    /// A request is authenticated where it has a session.
    pub fn is_authenticated(&self) -> (r: bool)
        ensures
            r == self.id().is_some(),
    {
        self.session_id.is_some()
    }
}

/// The participant of a client that names none.
pub fn default_timite() -> (timite: Timite)
    ensures
        timite.id == 0,
        timite.nick@.len() == 0,
{
    Timite { id: 0, nick: String::new() }
}

/// The client information of a client that gives none.
pub fn default_client_info() -> (info: ClientInfo)
    ensures
        info.platform@.len() == 0,
{
    ClientInfo { platform: String::new() }
}

/// The record with the id `id` that stands first in `records`.
pub open spec fn first_with(records: Seq<SessionRecord>, id: Seq<char>) -> Option<SessionRecord>
    decreases records.len(),
{
    if records.len() == 0 {
        None
    } else if records[0].session.id@ == id {
        Some(records[0])
    } else {
        first_with(records.skip(1), id)
    }
}

/// The sessions that were handed out.
pub struct SessionService {
    store: Vec<SessionRecord>,
}

impl SessionService {
    /// The records, the latest first.
    pub closed spec fn records(&self) -> Seq<SessionRecord> {
        self.store@
    }

    /// The record of the session `id`: the latest that was made under it.
    pub open spec fn record_of(&self, id: Seq<char>) -> Option<SessionRecord> {
        first_with(self.records(), id)
    }

    pub fn new() -> (service: Self)
        ensures
            service.records().len() == 0,
    {
        SessionService { store: Vec::new() }
    }

    /// Hands out a session under the id `id`, made at `now`, for the client
    /// of the request; what the client leaves out is taken as empty.
    pub fn ensure_session(&mut self, req: AuthenticateReq, id: String, now: Timestamp) -> (session:
        SessionTicket)
        ensures
            session == (SessionTicket { id, created_at: Some(now) }),
            final(self).record_of(id@) matches Some(record) && record.session == session && match req.timite {
                Some(timite) => record.timite == timite,
                None => record.timite.id == 0 && record.timite.nick@.len() == 0,
            } && match req.client_info {
                Some(info) => record.client_info == info,
                None => record.client_info.platform@.len() == 0,
            },
            forall|other: Seq<char>|
                other != id@ ==> #[trigger] final(self).record_of(other) == old(self).record_of(
                    other,
                ),
    {
        let session = SessionTicket { id, created_at: Some(now) };
        let timite = match req.timite {
            Some(timite) => timite,
            None => default_timite(),
        };
        let client_info = match req.client_info {
            Some(info) => info,
            None => default_client_info(),
        };
        let record = SessionRecord { session: session.clone(), timite, client_info };
        let ghost before = self.store@;
        self.store.insert(0, record);
        proof {
            assert(self.store@.skip(1) =~= before);
        }
        session
    }

    /// What is known of the session `session_id`.
    pub fn get(&self, session_id: &str) -> (r: Option<SessionContext>)
        ensures
            match r {
                Some(context) => self.record_of(session_id@) matches Some(record) && context.id()
                    == Some(record.session.id) && context.participant() == Some(record.timite)
                    && context.client() == Some(record.client_info),
                None => self.record_of(session_id@).is_none(),
            },
    {
        let wanted = String::from_str(session_id);
        let mut i: usize = 0;
        assert(self.store@.skip(0) =~= self.store@);
        while i < self.store.len()
            invariant
                wanted@ == session_id@,
                i <= self.store.len(),
                first_with(self.store@.skip(i as int), session_id@) == first_with(
                    self.store@,
                    session_id@,
                ),
            decreases self.store.len() - i,
        {
            let record = &self.store[i];
            proof {
                assert(self.store@.skip(i as int)[0] == self.store@[i as int]);
                assert(self.store@.skip(i as int).skip(1) =~= self.store@.skip(i + 1));
            }
            if record.session.id == wanted {
                return Some(
                    SessionContext {
                        session_id: Some(record.session.id.clone()),
                        timite: Some(record.timite.clone()),
                        client_info: Some(record.client_info.clone()),
                    },
                );
            }
            i += 1;
        }
        None
    }
}

} // verus!
