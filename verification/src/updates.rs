//! The records of the command workspace: entries that a session types or is
//! shown, and the updates that carry them.

use vstd::prelude::*;
use crate::api::{ClientInfo, Timestamp, Timite};

verus! {

/// Who speaks in an entry.
#[derive(Debug, Clone, Copy, PartialEq, Eq, Structural)]
pub enum CommandRole {
    Unspecified,
    Command,
    Output,
}

/// What an entry holds.
#[derive(Debug, PartialEq, Eq)]
pub enum CommandContentValue {
    Text(String),
    Html(String),
}

#[derive(Debug, PartialEq, Eq)]
pub struct CommandContent {
    pub value: Option<CommandContentValue>,
}

/// One entry of the workspace log.
#[derive(Debug, PartialEq, Eq)]
pub struct CommandEntry {
    pub id: i64,
    pub role: CommandRole,
    pub content: Option<CommandContent>,
}

/// The theme of a session.
#[derive(Debug, Clone, Copy, PartialEq, Eq, Structural)]
pub enum Theme {
    Unspecified,
    Night,
    Day,
}

/// An entry and the client or service that it comes from.
#[derive(Debug, PartialEq, Eq)]
pub struct EntryMessage {
    pub sender_id: String,
    pub entry: Option<CommandEntry>,
}

#[derive(Debug, PartialEq, Eq)]
pub struct SpaceNewMessage {
    pub message: Option<EntryMessage>,
}

/// What an update tells a session.
#[derive(Debug, PartialEq, Eq)]
pub enum SpaceUpdateEvent {
    SpaceNewMessage(SpaceNewMessage),
    WorkspaceEntriesClear,
    SessionStatus(String),
    SessionHelp(String),
    SessionTheme(Theme),
}

/// One update of a session.
#[derive(Debug, PartialEq, Eq)]
pub struct SpaceUpdate {
    pub id: String,
    pub event: Option<SpaceUpdateEvent>,
}

/// A client that asks for a session.
#[derive(Debug, PartialEq, Eq)]
pub struct AuthenticateReq {
    pub timite: Option<Timite>,
    pub client_info: Option<ClientInfo>,
}

/// A session as the workspace hands it out.
#[derive(Debug, PartialEq, Eq)]
pub struct SessionTicket {
    pub id: String,
    pub created_at: Option<Timestamp>,
}

impl Clone for SessionTicket {
    fn clone(&self) -> (r: Self)
        ensures
            r == *self,
    {
        SessionTicket { id: self.id.clone(), created_at: self.created_at }
    }
}

} // verus!
