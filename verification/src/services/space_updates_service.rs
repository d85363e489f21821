//! What the dispatcher of updates reports.

use vstd::prelude::*;

verus! {

/// Why an update could not be published.
#[derive(Debug, Clone, Copy, PartialEq, Eq, Structural)]
pub enum SpaceUpdatesPublishError {
    /// The dispatcher takes no more updates.
    DispatcherClosed,
}

impl SpaceUpdatesPublishError {
    /// The failure in words.
    pub fn message(&self) -> (text: String)
        ensures
            text@ == "space updates dispatcher is closed"@,
    {
        String::from_str("space updates dispatcher is closed")
    }
}

} // verus!
