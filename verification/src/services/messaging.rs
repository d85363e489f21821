//! The updates that the command workspace sends to a session.

use vstd::prelude::*;
use crate::updates::{
    CommandContent, CommandContentValue, CommandEntry, CommandRole, EntryMessage, SpaceNewMessage,
    SpaceUpdate, SpaceUpdateEvent, Theme,
};

verus! {

pub const DEFAULT_STATUS: &'static str = "Ready";

pub const DEFAULT_HELP: &'static str =
    "Type `HELP` for available commands. Press `Esc` to cancel current input.";

pub const SYSTEM_SENDER_ID: &'static str = "tim-code";

pub const ASSISTANT_SENDER_ID: &'static str = "assistant";

/// The overview of the commands, as the workspace shows it.
pub const HELP_HTML: &'static str =
    "<div class=\"help-block\">\n\t<h3>Available commands</h3>\n\t<dl class=\"help-list\">\n\t\t<dt>HELP</dt>\n\t\t<dd>Display this help overview.</dd>\n\t\t<dt>CLEAR</dt>\n\t\t<dd>Reset the workspace log.</dd>\n\t\t<dt>THEME &lt;night|day&gt;</dt>\n\t\t<dd>Switch the active theme.</dd>\n\t</dl>\n\t<p class=\"help-hint\">Commands are case-insensitive. Try \u{201c}THEME night\u{201d}.</p>\n</div>";

/// The largest time in milliseconds for which an entry id can be made.
pub open spec fn max_entry_millis() -> int {
    (i64::MAX - 999) / 1000
}

/// The id of the entry that is made at the time `millis` as the `counter`-th
/// of the process: the time in microseconds, its last three digits taken
/// from the counter.
pub open spec fn entry_id(millis: u64, counter: u64) -> int {
    millis * 1000 + counter % 1000
}

/// The id of the entry that is made at the time `millis` as the `counter`-th
/// of the process.
pub fn next_entry_id(millis: u64, counter: u64) -> (id: i64)
    requires
        millis <= max_entry_millis(),
    ensures
        id == entry_id(millis, counter),
{
    (millis * 1000 + counter % 1000) as i64
}

/// The entry of a command that a session typed.
pub fn command_entry(id: i64, command: String) -> (entry: CommandEntry)
    ensures
        entry == (CommandEntry {
            id,
            role: CommandRole::Command,
            content: Some(CommandContent { value: Some(CommandContentValue::Text(command)) }),
        }),
{
    CommandEntry {
        id,
        role: CommandRole::Command,
        content: Some(CommandContent { value: Some(CommandContentValue::Text(command)) }),
    }
}

/// The entry of a text that the workspace answers.
pub fn output_entry_text(id: i64, text: &str) -> (entry: CommandEntry)
    ensures
        entry.id == id,
        entry.role == CommandRole::Output,
        entry.content matches Some(content) && content.value matches Some(
            CommandContentValue::Text(held),
        ) && held@ == text@,
{
    CommandEntry {
        id,
        role: CommandRole::Output,
        content: Some(
            CommandContent { value: Some(CommandContentValue::Text(String::from_str(text))) },
        ),
    }
}

/// The entry of a piece of HTML that the workspace answers.
pub fn output_entry_html(id: i64, html: String) -> (entry: CommandEntry)
    ensures
        entry == (CommandEntry {
            id,
            role: CommandRole::Output,
            content: Some(CommandContent { value: Some(CommandContentValue::Html(html)) }),
        }),
{
    CommandEntry {
        id,
        role: CommandRole::Output,
        content: Some(CommandContent { value: Some(CommandContentValue::Html(html)) }),
    }
}

/// The overview of the commands.
pub fn help_html() -> (html: String)
    ensures
        html@ == HELP_HTML@,
{
    String::from_str(HELP_HTML)
}

/// The updates of a session, by kind.
pub struct SessionUpdates;

impl SessionUpdates {
    /// The update that adds `entry`, which `sender_id` sent, to the log.
    pub fn append_entry(id: String, sender_id: &str, entry: CommandEntry) -> (update: SpaceUpdate)
        ensures
            update.id == id,
            update.event matches Some(SpaceUpdateEvent::SpaceNewMessage(new_message))
                && new_message.message matches Some(message) && message.sender_id@ == sender_id@
                && message.entry == Some(entry),
    {
        SpaceUpdate {
            id,
            event: Some(
                SpaceUpdateEvent::SpaceNewMessage(
                    SpaceNewMessage {
                        message: Some(
                            EntryMessage { sender_id: String::from_str(sender_id), entry: Some(entry) },
                        ),
                    },
                ),
            ),
        }
    }

    /// The update that empties the log.
    pub fn workspace_cleared(id: String) -> (update: SpaceUpdate)
        ensures
            update == (SpaceUpdate { id, event: Some(SpaceUpdateEvent::WorkspaceEntriesClear) }),
    {
        SpaceUpdate { id, event: Some(SpaceUpdateEvent::WorkspaceEntriesClear) }
    }

    /// The update that sets the status line.
    pub fn status(id: String, status: &str) -> (update: SpaceUpdate)
        ensures
            update.id == id,
            update.event matches Some(SpaceUpdateEvent::SessionStatus(held)) && held@ == status@,
    {
        SpaceUpdate { id, event: Some(SpaceUpdateEvent::SessionStatus(String::from_str(status))) }
    }

    /// The update that sets the help line.
    pub fn help(id: String, help: &str) -> (update: SpaceUpdate)
        ensures
            update.id == id,
            update.event matches Some(SpaceUpdateEvent::SessionHelp(held)) && held@ == help@,
    {
        SpaceUpdate { id, event: Some(SpaceUpdateEvent::SessionHelp(String::from_str(help))) }
    }

    /// The update that sets the theme.
    pub fn theme(id: String, theme: Theme) -> (update: SpaceUpdate)
        ensures
            update == (SpaceUpdate { id, event: Some(SpaceUpdateEvent::SessionTheme(theme)) }),
    {
        SpaceUpdate { id, event: Some(SpaceUpdateEvent::SessionTheme(theme)) }
    }
}

} // verus!
