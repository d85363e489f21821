//! The settings with which an agent connects to the space.

use vstd::prelude::*;

verus! {

pub const SESSION_METADATA_KEY: &'static str = "tim-session-key";

/// Where the space is, and as whom the agent joins it: under a participant
/// id that it has already, or as a new participant.
#[derive(Debug, PartialEq, Eq)]
pub struct TimClientConf {
    pub endpoint: String,
    pub nick: String,
    pub provider: String,
    pub timite_id: Option<u64>,
}

impl Clone for TimClientConf {
    fn clone(&self) -> (r: Self)
        ensures
            r == *self,
    {
        TimClientConf {
            endpoint: self.endpoint.clone(),
            nick: self.nick.clone(),
            provider: self.provider.clone(),
            timite_id: self.timite_id,
        }
    }
}

} // verus!
