//! The bounded queues through which the space hands events to its
//! subscribers: tokio's multi-producer channel, as far as the space uses it.

use vstd::prelude::*;
use tokio::sync::mpsc::{Receiver, Sender};
use crate::api::SpaceEvent;

verus! {

/// The sending half of a bounded tokio channel.
#[verifier::external_type_specification]
#[verifier::external_body]
#[verifier::reject_recursive_types(T)]
pub struct ExSender<T>(Sender<T>);

/// The receiving half of a bounded tokio channel.
#[verifier::external_type_specification]
#[verifier::external_body]
#[verifier::reject_recursive_types(T)]
pub struct ExReceiver<T>(Receiver<T>);

/// The largest buffer that tokio accepts for a bounded channel.
pub open spec fn max_buffer() -> int {
    usize::MAX as int / 8
}

/// `tokio::sync::mpsc::channel`: a new bounded channel with room for `buffer`
/// events. tokio panics on a buffer of 0 and on one above its semaphore's
/// limit, `usize::MAX >> 3`; both are left out. Nothing is claimed of the two
/// halves.
#[verifier::external_body]
pub(crate) fn open_channel(buffer: usize) -> (halves: (Sender<SpaceEvent>, Receiver<SpaceEvent>))
    requires
        0 < buffer <= max_buffer(),
{
    tokio::sync::mpsc::channel(buffer)
}

/// `Sender::is_closed`: whether the receiving half was closed or dropped.
/// The answer depends on what the receiver's owner did, so nothing is
/// claimed of it.
#[verifier::external_body]
pub(crate) fn chan_is_closed(chan: &Sender<SpaceEvent>) -> (closed: bool) {
    chan.is_closed()
}

/// `Sender::try_send`: hands `event` to the channel without waiting and tells
/// whether it was accepted. tokio refuses it where the channel is full or its
/// receiving half is closed; which of these holds depends on the receiver, so
/// nothing is claimed of the answer.
#[verifier::external_body]
pub(crate) fn chan_try_send(chan: &Sender<SpaceEvent>, event: SpaceEvent) -> (accepted: bool) {
    chan.try_send(event).is_ok()
}

} // verus!
