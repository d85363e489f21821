//! The ability coordinator: gives ability calls their ids, stores them,
//! publishes calls and outcomes, and lets only the target of a call answer it.

use vstd::prelude::*;
use crate::api::{CallAbility, CallAbilityOutcome, EventData, Session, Timestamp, TimiteAbilities};
use crate::tim_space::{TimSpace, TimSpaceError};
use crate::tim_space::registry::survivors_of;
use crate::tim_storage::{listed_view, TimStorage, TimStorageError};

verus! {

/// What the coordinator can report.
#[derive(Debug, PartialEq, Eq)]
pub enum TimAbilityError {
    StorageError(TimStorageError),
    SpaceError(TimSpaceError),
    CallAbilityMissing(u64),
    TargetMismatch { call_target: u64, sender: u64 },
}

/// The ability coordinator.
pub struct TimAbility {
    call_ability_cnt: u64,
}

impl TimAbility {
    /// The id that was given out last.
    pub closed spec fn counter(&self) -> u64 {
        self.call_ability_cnt
    }

    /// No stored call has an id above the counter: the next id is new.
    pub open spec fn inv(&self, storage: &TimStorage) -> bool {
        &&& storage.wf()
        &&& forall|id: u64| (#[trigger] storage.call_at(id)).is_some() ==> id <= self.counter()
    }

    /// The call as the coordinator records it: under the id `id`, sent by
    /// `sender`, the rest as the caller gave it.
    pub open spec fn call_of(id: int, sender: u64, call: CallAbility) -> CallAbility {
        CallAbility {
            call_ability_id: id as u64,
            sender_id: sender,
            timite_id: call.timite_id,
            name: call.name,
            payload: call.payload,
        }
    }

    /// A coordinator that continues the call ids of `storage`.
    pub fn new(storage: &TimStorage) -> (service: Self)
        requires
            storage.wf(),
        ensures
            service.inv(storage),
            service.counter() != 0 ==> storage.call_at(service.counter()).is_some(),
    {
        let max_call_id = storage.fetch_max_call_ability_id();
        TimAbility { call_ability_cnt: max_call_id }
    }

    /// The id that was given out last.
    pub fn last_id(&self) -> (id: u64)
        ensures
            id == self.counter(),
    {
        self.call_ability_cnt
    }

    /// The declared ability sets, each with its participant.
    pub fn list(&self, storage: &TimStorage) -> (r: Vec<TimiteAbilities>)
        requires
            storage.wf(),
        ensures
            r@.map_values(|entry: TimiteAbilities| listed_view(entry)) == storage.listed(),
    {
        storage.list_abilities()
    }

    /// Takes an ability call of the session's participant: gives it the next
    /// id, records it with that id and with the session's participant as its
    /// sender, whatever the client says, and publishes it as a `CallAbility`
    /// event. The target is as the caller gave it.
    pub fn process_call_ability(
        &mut self,
        storage: &mut TimStorage,
        space: &mut TimSpace,
        call_ability: &CallAbility,
        session: &Session,
        now: Timestamp,
    ) -> (r: Result<u64, TimAbilityError>)
        requires
            old(self).inv(old(storage)),
            old(space).inv(old(storage)),
        ensures
            final(self).inv(final(storage)),
            final(space).inv(final(storage)),
            survivors_of(final(space).subscribers(), old(space).subscribers()),
            final(storage).session_rows() == old(storage).session_rows(),
            final(storage).timite_rows() == old(storage).timite_rows(),
            final(storage).ability_rows() == old(storage).ability_rows(),
            final(storage).message_rows() == old(storage).message_rows(),
            match r {
                Ok(id) => {
                    &&& old(self).counter() < u64::MAX
                    &&& id == old(self).counter() + 1
                    &&& final(self).counter() == id
                    &&& old(storage).call_at(id).is_none()
                    &&& final(storage).call_at(id) == Some(
                        Self::call_of(id as int, session.timite_id, *call_ability),
                    )
                    &&& forall|other: u64|
                        other != id ==> #[trigger] final(storage).call_at(other) == old(
                            storage,
                        ).call_at(other)
                    &&& final(space).published(
                        final(storage),
                        old(space),
                        old(storage),
                        EventData::CallAbility(
                            Self::call_of(id as int, session.timite_id, *call_ability),
                        ),
                        now,
                    )
                },
                Err(TimAbilityError::StorageError(_)) => {
                    &&& old(self).counter() == u64::MAX
                    &&& final(self).counter() == old(self).counter()
                    &&& *final(space) == *old(space)
                    &&& final(storage).call_rows() == old(storage).call_rows()
                    &&& final(storage).event_rows() == old(storage).event_rows()
                },
                Err(TimAbilityError::SpaceError(e)) => {
                    &&& e is Timeline
                    &&& final(space).counter() == u64::MAX
                    &&& old(space).counter() + old(space).subscribers().len() >= u64::MAX
                    &&& old(self).counter() < u64::MAX
                    &&& final(self).counter() == old(self).counter() + 1
                },
                Err(_) => false,
            },
    {
        if self.call_ability_cnt == u64::MAX {
            return Err(
                TimAbilityError::StorageError(
                    TimStorageError::Timeline(String::from_str("the call ids are used up")),
                ),
            );
        }
        let call_ability_id = self.call_ability_cnt + 1;
        self.call_ability_cnt = call_ability_id;
        let call_ability_with_id = CallAbility {
            call_ability_id,
            sender_id: session.timite_id,
            timite_id: call_ability.timite_id,
            name: call_ability.name.clone(),
            payload: call_ability.payload.clone(),
        };
        match storage.store_call_ability(call_ability_id, &call_ability_with_id) {
            Ok(_) => {},
            Err(e) => {
                return Err(TimAbilityError::StorageError(e));
            },
        }
        let ghost stored = *storage;
        let r = space.publish_call_ability(storage, &call_ability_with_id, now);
        proof {
            assert(storage.call_rows() == stored.call_rows());
            assert forall|id: u64| #[trigger] storage.call_at(id) == stored.call_at(id) by {}
            assert(stored.events() == old(storage).events());
        }
        match r {
            Ok(_) => Ok(call_ability_id),
            Err(e) => Err(TimAbilityError::SpaceError(e)),
        }
    }

    /// Reads the call `call_ability_id`.
    pub fn find_call_ability(&self, storage: &TimStorage, call_ability_id: u64) -> (r: Result<
        CallAbility,
        TimAbilityError,
    >)
        requires
            storage.wf(),
        ensures
            match r {
                Ok(call) => storage.call_at(call_ability_id) == Some(call),
                Err(e) => e == TimAbilityError::CallAbilityMissing(call_ability_id)
                    && storage.call_at(call_ability_id).is_none(),
            },
    {
        match storage.fetch_call_ability(call_ability_id) {
            Some(call) => Ok(call),
            None => Err(TimAbilityError::CallAbilityMissing(call_ability_id)),
        }
    }

    /// Takes the outcome of a call from the session's participant, and
    /// publishes it as a `CallAbilityOutcome` event where that participant is
    /// the target of the call. An outcome for a call that is not recorded,
    /// and one from anybody but the target, is refused and changes nothing.
    pub fn submit_outcome(
        &self,
        storage: &mut TimStorage,
        space: &mut TimSpace,
        outcome: &CallAbilityOutcome,
        session: &Session,
        now: Timestamp,
    ) -> (r: Result<(), TimAbilityError>)
        requires
            old(space).inv(old(storage)),
        ensures
            final(space).inv(final(storage)),
            final(storage).same_but_events(*old(storage)),
            survivors_of(final(space).subscribers(), old(space).subscribers()),
            match old(storage).call_at(outcome.call_ability_id) {
                None => {
                    &&& r == Err::<(), TimAbilityError>(
                        TimAbilityError::CallAbilityMissing(outcome.call_ability_id),
                    )
                    &&& *final(space) == *old(space)
                    &&& *final(storage) == *old(storage)
                },
                Some(call) => if call.timite_id != session.timite_id {
                    &&& r == Err::<(), TimAbilityError>(
                        TimAbilityError::TargetMismatch {
                            call_target: call.timite_id,
                            sender: session.timite_id,
                        },
                    )
                    &&& *final(space) == *old(space)
                    &&& *final(storage) == *old(storage)
                } else {
                    match r {
                        Ok(_) => final(space).published(
                            final(storage),
                            old(space),
                            old(storage),
                            EventData::CallAbilityOutcome(*outcome),
                            now,
                        ),
                        Err(TimAbilityError::SpaceError(e)) => {
                            &&& e is Timeline
                            &&& final(space).counter() == u64::MAX
                            &&& old(space).counter() + old(space).subscribers().len() >= u64::MAX
                        },
                        Err(_) => false,
                    }
                },
            },
    {
        let call_ability = match self.find_call_ability(storage, outcome.call_ability_id) {
            Ok(call) => call,
            Err(e) => {
                proof {
                    assert forall|i: int| 0 <= i < space.subscribers().len() implies space.subscribers().contains(
                        #[trigger] space.subscribers()[i],
                    ) by {}
                }
                return Err(e);
            },
        };
        if call_ability.timite_id != session.timite_id {
            proof {
                assert forall|i: int| 0 <= i < space.subscribers().len() implies space.subscribers().contains(
                    #[trigger] space.subscribers()[i],
                ) by {}
            }
            return Err(
                TimAbilityError::TargetMismatch {
                    call_target: call_ability.timite_id,
                    sender: session.timite_id,
                },
            );
        }
        match space.publish_call_outcome(storage, outcome, session.timite_id, now) {
            Ok(_) => Ok(()),
            Err(e) => Err(TimAbilityError::SpaceError(e)),
        }
    }
}

} // verus!
