//! Sessions: opaque credentials, each bound to one participant for good.

use vstd::prelude::*;
use crate::api::{ClientInfo, Session, Timestamp, Timite};
use crate::secret::{generate_session_key, is_session_key};
use crate::tim_storage::{TimStorage, TimStorageError};

verus! {

/// The name of the request metadata that carries the credential.
pub const SESSION_METADATA_KEY: &'static str = "tim-session-key";

/// What the session service can report.
#[derive(Debug, PartialEq, Eq)]
pub enum TimSessionError {
    StorageError(TimStorageError),
}

/// The session service. It keeps nothing of its own: sessions live in the
/// storage, and so outlive the process.
#[derive(Clone, Copy, Debug)]
pub struct TimSession {}

impl TimSession {
    pub fn new() -> (service: Self) {
        TimSession {  }
    }

    /// Opens a session of `timite` under the credential `key` and stores it,
    /// in place of a session that the credential had.
    pub fn open(
        &self,
        storage: &mut TimStorage,
        key: String,
        timite: &Timite,
        client_info: &ClientInfo,
        now: Timestamp,
    ) -> (session: Session)
        requires
            old(storage).wf(),
        ensures
            final(storage).wf(),
            final(storage).same_but_sessions(*old(storage)),
            session == (Session {
                key,
                timite_id: timite.id,
                created_at: now,
                client_info: *client_info,
            }),
            final(storage).session_at(key@) == Some(session),
            forall|k: Seq<char>|
                k != key@ ==> #[trigger] final(storage).session_at(k) == old(storage).session_at(k),
    {
        let session = Session {
            key,
            timite_id: timite.id,
            created_at: now,
            client_info: client_info.clone(),
        };
        storage.store_session(&session);
        session
    }

    /// Opens a session of `timite` under a fresh credential and stores it.
    /// The credential is random; everything else of the session is fixed by
    /// the arguments.
    pub fn create(
        &self,
        storage: &mut TimStorage,
        timite: &Timite,
        client_info: &ClientInfo,
        now: Timestamp,
    ) -> (r: Result<Session, TimSessionError>)
        requires
            old(storage).wf(),
        ensures
            final(storage).wf(),
            final(storage).same_but_sessions(*old(storage)),
            r is Ok,
            is_session_key(r.unwrap().key@),
            r.unwrap().timite_id == timite.id,
            r.unwrap().created_at == now,
            r.unwrap().client_info == *client_info,
            final(storage).session_at(r.unwrap().key@) == Some(r.unwrap()),
            forall|k: Seq<char>|
                k != r.unwrap().key@ ==> #[trigger] final(storage).session_at(k) == old(
                    storage,
                ).session_at(k),
    {
        let key = generate_session_key();
        Ok(self.open(storage, key, timite, client_info, now))
    }

    /// Resolves a credential to its session.
    pub fn get(&self, storage: &TimStorage, session_key: &str) -> (r: Result<
        Option<Session>,
        TimSessionError,
    >)
        requires
            storage.wf(),
        ensures
            r == Ok::<Option<Session>, TimSessionError>(storage.session_at(session_key@)),
    {
        Ok(storage.find_session(session_key))
    }
}

/// Resolves the credential that a request carries, if it carries one, to its
/// session.
pub fn extract_session(sessions: &TimSession, storage: &TimStorage, token: Option<&str>) -> (r:
    Option<Session>)
    requires
        storage.wf(),
    ensures
        r == match token {
            Some(key) => storage.session_at(key@),
            None => None,
        },
{
    let token = match token {
        Some(token) => token,
        None => {
            return None;
        },
    };
    match sessions.get(storage, token) {
        Ok(Some(session)) => Some(session),
        Ok(None) => None,
        Err(_) => None,
    }
}

} // verus!
