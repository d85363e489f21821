//! The registry of participants: ids that only grow, and the abilities that
//! a participant declares.

use vstd::prelude::*;
use crate::api::{ability_views, Ability, Timite};
use crate::tim_storage::{TimStorage, TimStorageError};

verus! {

/// What the registry can report.
#[derive(Debug, PartialEq, Eq)]
pub enum TimTimiteError {
    StorageError(TimStorageError),
}

/// The registry of participants.
pub struct TimTimite {
    id_cnt: u64,
}

impl TimTimite {
    /// The id that was given out last.
    pub closed spec fn counter(&self) -> u64 {
        self.id_cnt
    }

    /// No stored participant has an id above the counter: the next id is new.
    pub open spec fn inv(&self, storage: &TimStorage) -> bool {
        &&& storage.wf()
        &&& forall|id: u64| (#[trigger] storage.timite_at(id)).is_some() ==> id <= self.counter()
    }

    /// A registry that continues the ids of `storage`: its counter is the
    /// largest id of a stored participant, 0 where there is none.
    pub fn new(storage: &TimStorage) -> (registry: Self)
        requires
            storage.wf(),
        ensures
            registry.inv(storage),
            registry.counter() != 0 ==> storage.timite_at(registry.counter()).is_some(),
    {
        let max_id = storage.fetch_max_timite_id();
        TimTimite { id_cnt: max_id }
    }

    /// The id that was given out last.
    pub fn last_id(&self) -> (id: u64)
        ensures
            id == self.counter(),
    {
        self.id_cnt
    }

    /// Creates a participant with the next id and the nick `nick`, and stores
    /// it. Where no id is left, nothing happens and the error says so.
    pub fn create(&mut self, storage: &mut TimStorage, nick: &str) -> (r: Result<
        Timite,
        TimTimiteError,
    >)
        requires
            old(self).inv(old(storage)),
        ensures
            final(self).inv(final(storage)),
            final(storage).same_but_timites(*old(storage)),
            match r {
                Ok(timite) => {
                    &&& old(self).counter() < u64::MAX
                    &&& timite.id == old(self).counter() + 1
                    &&& timite.nick@ == nick@
                    &&& final(self).counter() == timite.id
                    &&& old(storage).timite_at(timite.id).is_none()
                    &&& final(storage).timite_at(timite.id) == Some(timite)
                    &&& forall|id: u64|
                        id != timite.id ==> #[trigger] final(storage).timite_at(id) == old(
                            storage,
                        ).timite_at(id)
                },
                Err(e) => {
                    &&& old(self).counter() == u64::MAX
                    &&& e is StorageError
                    &&& final(self).counter() == old(self).counter()
                    &&& final(storage).timite_rows() == old(storage).timite_rows()
                },
            },
    {
        if self.id_cnt == u64::MAX {
            return Err(
                TimTimiteError::StorageError(
                    TimStorageError::Timeline(String::from_str("the participant ids are used up")),
                ),
            );
        }
        let id = self.id_cnt + 1;
        self.id_cnt = id;
        let timite = Timite { id, nick: String::from_str(nick) };
        storage.store_timite(&timite);
        Ok(timite)
    }

    /// Reads the participant `id`.
    pub fn get(&self, storage: &TimStorage, id: u64) -> (r: Option<Timite>)
        requires
            storage.wf(),
        ensures
            r == storage.timite_at(id),
    {
        storage.fetch_timite(id)
    }

    /// Replaces the ability set of `timite_id` by `abilities`: the latest
    /// declaration wins.
    pub fn declare_abilities(&self, storage: &mut TimStorage, timite_id: u64, abilities: &Vec<Ability>)
        requires
            old(storage).wf(),
        ensures
            final(storage).wf(),
            final(storage).same_but_abilities(*old(storage)),
            final(storage).abilities_at(timite_id).is_some(),
            final(storage).abilities_at(timite_id).unwrap().timite_id == timite_id,
            ability_views(final(storage).abilities_at(timite_id).unwrap().abilities@)
                == ability_views(abilities@),
            forall|id: u64|
                id != timite_id ==> #[trigger] final(storage).abilities_at(id) == old(
                    storage,
                ).abilities_at(id),
    {
        storage.store_timite_abilities(timite_id, abilities);
    }
}

} // verus!
