//! The keys under which an agent keeps what it has seen of the timeline:
//! by participant, then by time.

use vstd::prelude::*;
use crate::bytes::{be_bytes, push_be_bytes};

verus! {

/// `t:`, the id of the participant, `:`.
pub open spec fn spec_timeline_prefix(timite_id: u64) -> Seq<u8> {
    seq![0x74u8, 0x3a] + be_bytes(timite_id) + seq![0x3au8]
}

/// The prefix of the participant, the time, `:`.
pub open spec fn spec_timeline(timite_id: u64, timestamp: u64) -> Seq<u8> {
    spec_timeline_prefix(timite_id) + be_bytes(timestamp) + seq![0x3au8]
}

pub fn timeline_prefix(timite_id: u64) -> (buf: Vec<u8>)
    ensures
        buf@ == spec_timeline_prefix(timite_id),
{
    let mut buf: Vec<u8> = Vec::with_capacity(2 + 8 + 1);
    buf.push(0x74u8);
    buf.push(0x3au8);
    push_be_bytes(&mut buf, timite_id);
    buf.push(0x3au8);
    assert(buf@ =~= spec_timeline_prefix(timite_id));
    buf
}

pub fn timeline(timite_id: u64, timestamp: u64) -> (buf: Vec<u8>)
    ensures
        buf@ == spec_timeline(timite_id, timestamp),
{
    let mut buf = timeline_prefix(timite_id);
    push_be_bytes(&mut buf, timestamp);
    buf.push(0x3au8);
    assert(buf@ =~= spec_timeline(timite_id, timestamp));
    buf
}

} // verus!
