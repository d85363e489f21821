//! What the built-in assistant agent computes: its participant id from its
//! client id, the ids of its requests, and what it reads from an update.

use vstd::prelude::*;
use crate::text::numbered;
use crate::updates::{CommandContentValue, SpaceUpdate, SpaceUpdateEvent};

verus! {

pub const DEFAULT_AGENT_CLIENT_ID: &'static str = "agent-chatgpt";

pub const FNV_OFFSET: u64 = 0xcbf29ce484222325;

pub const FNV_PRIME: u64 = 0x100000001b3;

/// The FNV-1a hash of some bytes: from the offset basis, each byte is mixed
/// in by exclusive or and a multiplication by the prime, modulo 2^64.
pub open spec fn fnv1a(bytes: Seq<u8>) -> u64
    decreases bytes.len(),
{
    if bytes.len() == 0 {
        FNV_OFFSET
    } else {
        (fnv1a(bytes.drop_last()) ^ bytes.last() as u64).wrapping_mul(FNV_PRIME)
    }
}

/// The hash of some bytes.
pub fn hash_bytes(bytes: &[u8]) -> (hash: u64)
    ensures
        hash == fnv1a(bytes@),
{
    let mut hash: u64 = FNV_OFFSET;
    let mut i: usize = 0;
    assert(bytes@.subrange(0, 0) =~= Seq::<u8>::empty());
    while i < bytes.len()
        invariant
            i <= bytes.len(),
            hash == fnv1a(bytes@.subrange(0, i as int)),
        decreases bytes.len() - i,
    {
        proof {
            assert(bytes@.subrange(0, i + 1).drop_last() =~= bytes@.subrange(0, i as int));
        }
        hash = hash ^ (bytes[i] as u64);
        hash = hash.wrapping_mul(FNV_PRIME);
        i += 1;
    }
    assert(bytes@.subrange(0, i as int) =~= bytes@);
    hash
}

/// The participant id of the agent with the client id `client_id`: the hash
/// of its bytes.
pub fn hash_client_id(client_id: &str) -> (hash: u64)
    ensures
        hash == fnv1a(vstd::utf8::encode_utf8(client_id@)),
{
    hash_bytes(client_id.as_bytes())
}

/// The id of the `counter`-th request of the agent: its seed, a colon and
/// the number.
pub fn next_request_id(seed: &str, counter: u64) -> (id: String)
    ensures
        id@ == seed@ + ":"@ + crate::text::decimal(counter as nat),
{
    let head = String::from_str(seed).concat(":");
    numbered(head.as_str(), counter)
}

/// The sender and the text of the message that an update carries, where it
/// carries a message with a text.
pub fn extract_message(update: &SpaceUpdate) -> (r: Option<(String, String)>)
    ensures
        r == match update.event {
            Some(SpaceUpdateEvent::SpaceNewMessage(new_message)) => match new_message.message {
                Some(message) => match message.entry {
                    Some(entry) => match entry.content {
                        Some(content) => match content.value {
                            Some(CommandContentValue::Text(text)) => Some(
                                (message.sender_id, text),
                            ),
                            _ => None,
                        },
                        None => None,
                    },
                    None => None,
                },
                None => None,
            },
            _ => None,
        },
{
    match &update.event {
        Some(SpaceUpdateEvent::SpaceNewMessage(new_message)) => match &new_message.message {
            Some(message) => match &message.entry {
                Some(entry) => match &entry.content {
                    Some(content) => match &content.value {
                        Some(CommandContentValue::Text(text)) => Some(
                            (message.sender_id.clone(), text.clone()),
                        ),
                        _ => None,
                    },
                    None => None,
                },
                None => None,
            },
            None => None,
        },
        _ => None,
    }
}

} // verus!
