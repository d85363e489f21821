//! Whether an update is meant for a subscriber.

use vstd::prelude::*;
use crate::updates::{SpaceUpdate, SpaceUpdateEvent};

verus! {

/// What is known of a subscriber's connection.
#[derive(Debug)]
pub struct SpaceSubscriber {
    pub client_id: String,
    pub timite_id: String,
    pub receive_own_messages: bool,
}

impl Clone for SpaceSubscriber {
    fn clone(&self) -> (r: Self)
        ensures
            r == *self,
    {
        SpaceSubscriber {
            client_id: self.client_id.clone(),
            timite_id: self.timite_id.clone(),
            receive_own_messages: self.receive_own_messages,
        }
    }
}

/// The update is meant for the subscriber: every update is, but a message
/// of the subscriber's own participant where the subscriber does not ask
/// for those.
pub open spec fn delivers(subscriber: SpaceSubscriber, update: SpaceUpdate) -> bool {
    subscriber.receive_own_messages || match update.event {
        Some(SpaceUpdateEvent::SpaceNewMessage(new_message)) => match new_message.message {
            Some(message) => message.sender_id@ != subscriber.timite_id@,
            None => true,
        },
        _ => true,
    }
}

/// A way to decide who gets an update.
pub trait UpdateDecideReceiverFlow {
    fn should_deliver(&self, subscriber: &SpaceSubscriber, update: &SpaceUpdate) -> bool;
}

/// The space's own way: nobody gets its own messages unasked.
#[derive(Debug, Clone, Copy)]
pub struct SpaceUpdateReceiverFlow;

impl SpaceUpdateReceiverFlow {
    pub fn new() -> (flow: Self) {
        SpaceUpdateReceiverFlow
    }
}

impl UpdateDecideReceiverFlow for SpaceUpdateReceiverFlow {
    fn should_deliver(&self, subscriber: &SpaceSubscriber, update: &SpaceUpdate) -> (r: bool)
        ensures
            r == delivers(*subscriber, *update),
    {
        if subscriber.receive_own_messages {
            return true;
        }
        match &update.event {
            Some(SpaceUpdateEvent::SpaceNewMessage(space_message)) => match &space_message.message {
                Some(message) => message.sender_id != subscriber.timite_id,
                None => true,
            },
            _ => true,
        }
    }
}

} // verus!
