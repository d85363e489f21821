//! The keys under which the records of the space are stored. Ids are written
//! big-endian, so that the store's byte order is the order of the ids.

use vstd::prelude::*;
use vstd::string::StringSliceAdditionalSpecFns;
use crate::bytes::{be_bytes, push_be_bytes};

verus! {

/// `t:id:`
pub open spec fn spec_timite_prefix() -> Seq<u8> {
    seq![0x74u8, 0x3a, 0x69, 0x64, 0x3a]
}

/// `t:skill:`
pub open spec fn spec_timite_abilities_prefix() -> Seq<u8> {
    seq![0x74u8, 0x3a, 0x73, 0x6b, 0x69, 0x6c, 0x6c, 0x3a]
}

/// `s:`
pub open spec fn spec_session_prefix() -> Seq<u8> {
    seq![0x73u8, 0x3a]
}

/// `msg:`
pub open spec fn spec_message_prefix() -> Seq<u8> {
    seq![0x6du8, 0x73, 0x67, 0x3a]
}

/// `acall:`
pub open spec fn spec_ability_call_prefix() -> Seq<u8> {
    seq![0x61u8, 0x63, 0x61, 0x6c, 0x6c, 0x3a]
}

/// `ev:`
pub open spec fn spec_timeline_prefix() -> Seq<u8> {
    seq![0x65u8, 0x76, 0x3a]
}

/// The key of the participant `id`.
pub open spec fn spec_timite(id: u64) -> Seq<u8> {
    spec_timite_prefix() + be_bytes(id)
}

/// The key of the ability set of the participant `id`.
pub open spec fn spec_timite_abilities(id: u64) -> Seq<u8> {
    spec_timite_abilities_prefix() + be_bytes(id)
}

/// The key of the session with the credential `key`.
pub open spec fn spec_session(key: Seq<char>) -> Seq<u8> {
    spec_session_prefix() + vstd::utf8::encode_utf8(key)
}

/// The key of the message `id`.
pub open spec fn spec_message(id: u64) -> Seq<u8> {
    spec_message_prefix() + be_bytes(id)
}

/// The key of the ability call `id`.
pub open spec fn spec_ability_call(id: u64) -> Seq<u8> {
    spec_ability_call_prefix() + be_bytes(id)
}

/// The key of the timeline event `id`.
pub open spec fn spec_timeline_event(id: u64) -> Seq<u8> {
    spec_timeline_prefix() + be_bytes(id)
}

pub fn timite_prefix() -> (k: Vec<u8>)
    ensures
        k@ == spec_timite_prefix(),
{
    let k: Vec<u8> = vec![0x74u8, 0x3a, 0x69, 0x64, 0x3a];
    assert(k@ =~= spec_timite_prefix());
    k
}

pub fn timite_abilities_prefix() -> (k: Vec<u8>)
    ensures
        k@ == spec_timite_abilities_prefix(),
{
    let k: Vec<u8> = vec![0x74u8, 0x3a, 0x73, 0x6b, 0x69, 0x6c, 0x6c, 0x3a];
    assert(k@ =~= spec_timite_abilities_prefix());
    k
}

pub fn timite(id: u64) -> (k: Vec<u8>)
    ensures
        k@ == spec_timite(id),
{
    let mut k = timite_prefix();
    push_be_bytes(&mut k, id);
    k
}

pub fn timite_abilities(id: u64) -> (k: Vec<u8>)
    ensures
        k@ == spec_timite_abilities(id),
{
    let mut k = timite_abilities_prefix();
    push_be_bytes(&mut k, id);
    k
}

pub fn session_prefix() -> (k: Vec<u8>)
    ensures
        k@ == spec_session_prefix(),
{
    let k: Vec<u8> = vec![0x73u8, 0x3a];
    assert(k@ =~= spec_session_prefix());
    k
}

pub fn session(key: &str) -> (k: Vec<u8>)
    ensures
        k@ == spec_session(key@),
{
    let mut k = session_prefix();
    let bytes = key.as_bytes();
    let ghost head = k@;
    k.extend_from_slice(bytes);
    assert(k@ =~= head + bytes@);
    k
}

pub fn message_prefix() -> (k: Vec<u8>)
    ensures
        k@ == spec_message_prefix(),
{
    let k: Vec<u8> = vec![0x6du8, 0x73, 0x67, 0x3a];
    assert(k@ =~= spec_message_prefix());
    k
}

pub fn message(id: u64) -> (k: Vec<u8>)
    ensures
        k@ == spec_message(id),
{
    let mut k = message_prefix();
    push_be_bytes(&mut k, id);
    k
}

pub fn ability_call_prefix() -> (k: Vec<u8>)
    ensures
        k@ == spec_ability_call_prefix(),
{
    let k: Vec<u8> = vec![0x61u8, 0x63, 0x61, 0x6c, 0x6c, 0x3a];
    assert(k@ =~= spec_ability_call_prefix());
    k
}

pub fn ability_call(id: u64) -> (k: Vec<u8>)
    ensures
        k@ == spec_ability_call(id),
{
    let mut k = ability_call_prefix();
    push_be_bytes(&mut k, id);
    k
}

pub fn timeline_prefix() -> (k: Vec<u8>)
    ensures
        k@ == spec_timeline_prefix(),
{
    let k: Vec<u8> = vec![0x65u8, 0x76, 0x3a];
    assert(k@ =~= spec_timeline_prefix());
    k
}

pub fn timeline_event(id: u64) -> (k: Vec<u8>)
    ensures
        k@ == spec_timeline_event(id),
{
    let mut k = timeline_prefix();
    push_be_bytes(&mut k, id);
    k
}

} // verus!
