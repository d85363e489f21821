//! What an agent remembers of the space: each event as a header and a line
//! of text.

pub mod key;

use vstd::prelude::*;
use crate::api::{CallAbility, CallAbilityOutcome, EventData, Message, SpaceEvent};
use crate::text::{decimal, push_decimal, trim, trimmed};

verus! {

/// One remembered event.
#[derive(Debug, PartialEq, Eq)]
pub struct TimelineEvent {
    pub timite_id: u64,
    pub header: String,
    pub content: String,
}

impl Clone for TimelineEvent {
    fn clone(&self) -> (r: Self)
        ensures
            r == *self,
    {
        TimelineEvent {
            timite_id: self.timite_id,
            header: self.header.clone(),
            content: self.content.clone(),
        }
    }
}

/// The part of an outcome's line that `label` and `value` make: a blank,
/// the label and the value without the white space around it; nothing where
/// there is no value or only white space.
pub open spec fn outcome_part(label: Seq<char>, value: Option<String>) -> Seq<char> {
    match value {
        Some(text) => if trimmed(text@).len() == 0 {
            Seq::empty()
        } else {
            " "@ + label + trimmed(text@)
        },
        None => Seq::empty(),
    }
}

/// The line that stands for an outcome.
pub open spec fn outcome_line(outcome: CallAbilityOutcome) -> Seq<char> {
    "call_id="@ + decimal(outcome.call_ability_id as nat) + outcome_part(
        "payload="@,
        outcome.payload,
    ) + outcome_part("error="@, outcome.error)
}

/// The line that stands for a call.
pub open spec fn call_line(call: CallAbility) -> Seq<char> {
    "sender="@ + decimal(call.sender_id as nat) + " payload="@ + trimmed(call.payload@)
}

/// What is remembered of a message: its text without the white space
/// around it, as said by a peer; nothing of a message without text.
pub fn message_event(message: &Message) -> (r: Option<TimelineEvent>)
    ensures
        match r {
            Some(event) => trimmed(message.content@).len() > 0 && event.timite_id == 0
                && event.header@ == "Peer"@ && event.content@ == trimmed(message.content@),
            None => trimmed(message.content@).len() == 0,
        },
{
    let content = trim(message.content.as_str());
    if content.unicode_len() == 0 {
        return None;
    }
    Some(
        TimelineEvent {
            timite_id: 0,
            header: String::from_str("Peer"),
            content: String::from_str(content),
        },
    )
}

/// What is remembered of an ability call.
pub fn call_event(call: &CallAbility) -> (event: TimelineEvent)
    ensures
        event.timite_id == 0,
        event.header@ == "CallAbility:"@ + trimmed(call.name@),
        event.content@ == call_line(*call),
{
    let payload = trim(call.payload.as_str());
    let header = String::from_str("CallAbility:").concat(trim(call.name.as_str()));
    let mut content = String::from_str("sender=");
    push_decimal(&mut content, call.sender_id);
    content.append(" payload=");
    content.append(payload);
    TimelineEvent { timite_id: 0, header, content }
}

/// Appends the part of an outcome's line that `label` and `value` make.
fn push_outcome_part(content: &mut String, label: &str, value: &Option<String>)
    ensures
        final(content)@ == old(content)@ + outcome_part(label@, *value),
{
    match value {
        Some(text) => {
            let text = trim(text.as_str());
            if text.unicode_len() > 0 {
                content.append(" ");
                content.append(label);
                content.append(text);
                assert(content@ =~= old(content)@ + outcome_part(label@, *value));
            } else {
                assert(content@ =~= old(content)@ + outcome_part(label@, *value));
            }
        },
        None => {
            assert(content@ =~= old(content)@ + outcome_part(label@, *value));
        },
    }
}

/// What is remembered of the outcome of an ability call.
pub fn call_outcome_event(outcome: &CallAbilityOutcome) -> (event: TimelineEvent)
    ensures
        event.timite_id == 0,
        event.header@ == "CallAbilityOutcome"@,
        event.content@ == outcome_line(*outcome),
{
    let mut content = String::from_str("call_id=");
    push_decimal(&mut content, outcome.call_ability_id);
    push_outcome_part(&mut content, "payload=", &outcome.payload);
    push_outcome_part(&mut content, "error=", &outcome.error);
    TimelineEvent { timite_id: 0, header: String::from_str("CallAbilityOutcome"), content }
}

/// What is remembered of an event of the space: of messages, calls and
/// outcomes, not of arrivals and departures.
pub fn timeline_event_from_update(update: &SpaceEvent) -> (r: Option<TimelineEvent>)
    ensures
        match update.data {
            EventData::NewMessage(message) => match r {
                Some(event) => trimmed(message.content@).len() > 0 && event.timite_id == 0
                    && event.header@ == "Peer"@ && event.content@ == trimmed(message.content@),
                None => trimmed(message.content@).len() == 0,
            },
            EventData::CallAbility(call) => r matches Some(event) && event.timite_id == 0
                && event.header@ == "CallAbility:"@ + trimmed(call.name@) && event.content@
                == call_line(call),
            EventData::CallAbilityOutcome(outcome) => r matches Some(event) && event.timite_id
                == 0 && event.header@ == "CallAbilityOutcome"@ && event.content@ == outcome_line(
                outcome,
            ),
            _ => r.is_none(),
        },
{
    match &update.data {
        EventData::NewMessage(message) => message_event(message),
        EventData::CallAbility(call) => Some(call_event(call)),
        EventData::CallAbilityOutcome(outcome) => Some(call_outcome_event(outcome)),
        _ => None,
    }
}

/// The entries from the position `start` on, at most `size` of them.
pub fn timeline_slice(entries: &Vec<TimelineEvent>, start: u64, size: u16) -> (slice: Vec<
    TimelineEvent,
>)
    ensures
        slice@ == entries@.subrange(
            if start <= entries@.len() {
                start as int
            } else {
                entries@.len() as int
            },
            if start + size <= entries@.len() {
                start + size
            } else {
                entries@.len() as int
            },
        ),
{
    let n = entries.len();
    let start_idx: usize = if start <= n as u64 {
        start as usize
    } else {
        n
    };
    let end_idx: usize = if (size as usize) <= n - start_idx {
        start_idx + size as usize
    } else {
        n
    };
    let mut slice: Vec<TimelineEvent> = Vec::new();
    let mut i: usize = start_idx;
    while i < end_idx
        invariant
            start_idx <= i <= end_idx <= n,
            n == entries@.len(),
            slice@ == entries@.subrange(start_idx as int, i as int),
        decreases end_idx - i,
    {
        slice.push(entries[i].clone());
        assert(slice@ =~= entries@.subrange(start_idx as int, i + 1));
        i += 1;
    }
    slice
}

} // verus!
