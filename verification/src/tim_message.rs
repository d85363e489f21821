//! The message service: gives messages their ids, stores them and publishes
//! them in the space.

use vstd::prelude::*;
use crate::api::{EventData, Message, SendMessageReq, Session, Timestamp};
use crate::tim_space::{TimSpace, TimSpaceError};
use crate::tim_space::registry::survivors_of;
use crate::tim_storage::{TimStorage, TimStorageError};

verus! {

/// What the message service can report.
#[derive(Debug, PartialEq, Eq)]
pub enum TimMessageError {
    StorageError(TimStorageError),
    SpaceError(TimSpaceError),
    MessageMissing(u64),
}

/// The message service.
pub struct TimMessage {
    msg_counter: u64,
}

impl TimMessage {
    /// The id that was given out last.
    pub closed spec fn counter(&self) -> u64 {
        self.msg_counter
    }

    /// No stored message has an id above the counter: the next id is new.
    pub open spec fn inv(&self, storage: &TimStorage) -> bool {
        &&& storage.wf()
        &&& forall|id: u64| (#[trigger] storage.message_at(id)).is_some() ==> id <= self.counter()
    }

    /// The message that `sender` sends with `content` under the id `id`.
    pub open spec fn message_of(id: int, sender: u64, content: String) -> Message {
        Message { id: id as u64, sender_id: sender, content }
    }

    /// A service that continues the message ids of `storage`.
    pub fn new(storage: &TimStorage) -> (service: Self)
        requires
            storage.wf(),
        ensures
            service.inv(storage),
            service.counter() != 0 ==> storage.message_at(service.counter()).is_some(),
    {
        let max_msg_id = storage.fetch_max_message_id();
        TimMessage { msg_counter: max_msg_id }
    }

    /// The id that was given out last.
    pub fn last_id(&self) -> (id: u64)
        ensures
            id == self.counter(),
    {
        self.msg_counter
    }

    /// Takes a message of the session's participant: gives it the next id,
    /// stores it, and publishes it as a `NewMessage` event. The sender is the
    /// participant of the session, whatever the client says.
    pub fn process_message(
        &mut self,
        storage: &mut TimStorage,
        space: &mut TimSpace,
        req: &SendMessageReq,
        session: &Session,
        now: Timestamp,
    ) -> (r: Result<u64, TimMessageError>)
        requires
            old(self).inv(old(storage)),
            old(space).inv(old(storage)),
        ensures
            final(self).inv(final(storage)),
            final(space).inv(final(storage)),
            survivors_of(final(space).subscribers(), old(space).subscribers()),
            final(storage).session_rows() == old(storage).session_rows(),
            final(storage).timite_rows() == old(storage).timite_rows(),
            final(storage).ability_rows() == old(storage).ability_rows(),
            final(storage).call_rows() == old(storage).call_rows(),
            match r {
                Ok(msg_id) => {
                    &&& old(self).counter() < u64::MAX
                    &&& msg_id == old(self).counter() + 1
                    &&& final(self).counter() == msg_id
                    &&& old(storage).message_at(msg_id).is_none()
                    &&& final(storage).message_at(msg_id) == Some(
                        Self::message_of(msg_id as int, session.timite_id, req.content),
                    )
                    &&& forall|id: u64|
                        id != msg_id ==> #[trigger] final(storage).message_at(id) == old(
                            storage,
                        ).message_at(id)
                    &&& final(space).published(
                        final(storage),
                        old(space),
                        old(storage),
                        EventData::NewMessage(
                            Self::message_of(msg_id as int, session.timite_id, req.content),
                        ),
                        now,
                    )
                },
                Err(TimMessageError::StorageError(_)) => {
                    &&& old(self).counter() == u64::MAX
                    &&& final(self).counter() == old(self).counter()
                    &&& *final(space) == *old(space)
                    &&& final(storage).message_rows() == old(storage).message_rows()
                    &&& final(storage).event_rows() == old(storage).event_rows()
                },
                Err(TimMessageError::SpaceError(e)) => {
                    &&& e is Timeline
                    &&& final(space).counter() == u64::MAX
                    &&& old(space).counter() + old(space).subscribers().len() >= u64::MAX
                    &&& old(self).counter() < u64::MAX
                    &&& final(self).counter() == old(self).counter() + 1
                },
                Err(TimMessageError::MessageMissing(_)) => false,
            },
    {
        if self.msg_counter == u64::MAX {
            return Err(
                TimMessageError::StorageError(
                    TimStorageError::Timeline(String::from_str("the message ids are used up")),
                ),
            );
        }
        let msg_id = self.msg_counter + 1;
        self.msg_counter = msg_id;
        let message = Message {
            id: msg_id,
            sender_id: session.timite_id,
            content: req.content.clone(),
        };
        match storage.store_message(msg_id, &message) {
            Ok(_) => {},
            Err(e) => {
                return Err(TimMessageError::StorageError(e));
            },
        }
        let ghost stored = *storage;
        let r = space.publish_message(storage, &message, now);
        proof {
            assert(storage.message_rows() == stored.message_rows());
            assert forall|id: u64| #[trigger] storage.message_at(id) == stored.message_at(id) by {}
            assert(stored.events() == old(storage).events());
        }
        match r {
            Ok(_) => Ok(msg_id),
            Err(e) => Err(TimMessageError::SpaceError(e)),
        }
    }

    /// Reads the message `msg_id`.
    pub fn find_message(&self, storage: &TimStorage, msg_id: u64) -> (r: Result<
        Message,
        TimMessageError,
    >)
        requires
            storage.wf(),
        ensures
            match r {
                Ok(message) => storage.message_at(msg_id) == Some(message),
                Err(e) => e == TimMessageError::MessageMissing(msg_id) && storage.message_at(
                    msg_id,
                ).is_none(),
            },
    {
        match storage.fetch_message(msg_id) {
            Some(message) => Ok(message),
            None => Err(TimMessageError::MessageMissing(msg_id)),
        }
    }
}

} // verus!
