//! The settings with which the terminal client connects to the space.

use vstd::prelude::*;

verus! {

/// Where the space is, and as whom the terminal joins it.
#[derive(Debug, PartialEq, Eq)]
pub struct ClientConfig {
    pub endpoint: String,
    pub nick: String,
    pub timite_id: Option<u64>,
}

impl Clone for ClientConfig {
    fn clone(&self) -> (r: Self)
        ensures
            r == *self,
    {
        ClientConfig {
            endpoint: self.endpoint.clone(),
            nick: self.nick.clone(),
            timite_id: self.timite_id,
        }
    }
}

impl Default for ClientConfig {
    fn default() -> (config: Self)
        ensures
            config.endpoint@ == "http://127.0.0.1:8787"@,
            config.nick@ == "terminal-user"@,
            config.timite_id.is_none(),
    {
        ClientConfig {
            endpoint: String::from_str("http://127.0.0.1:8787"),
            nick: String::from_str("terminal-user"),
            timite_id: None,
        }
    }
}

} // verus!
