//! The state of the terminal client: the input line with its cursor, the
//! timeline as it is shown, who is online, and what the space's events do
//! to them.

use vstd::prelude::*;
use std::collections::HashMap;
use crate::api::{
    CallAbility, CallAbilityOutcome, EventData, Message, SpaceEvent, Timestamp, Timite,
    TimiteAbilities,
};
use crate::lines::{
    byte_index_in, byte_offset, count_lines, count_newlines, length_of_line, lemma_line_bounds,
    lemma_line_col, line_col, line_col_in, line_len_in, line_start_in, lines_in, newlines_in,
    normalized, start_of_line,
};
use crate::text::{decimal, numbered, with_char_at, without_range};

verus! {

broadcast use vstd::std_specs::hash::group_hash_axioms;

/// Whether keys move about or write.
#[derive(Debug, Clone, Copy, PartialEq, Eq, Structural)]
pub enum InputMode {
    Normal,
    Insert,
}

/// One entry of the timeline as it is shown.
#[derive(Debug)]
pub enum TimelineItem {
    Message { sender: String, content: String, timestamp: u64 },
    TimiteConnected { nick: String, timestamp: u64 },
    TimiteDisconnected { nick: String, timestamp: u64 },
    AbilityCall { caller: String, ability_name: String, timestamp: u64 },
    AbilityOutcome { ability_name: String, success: bool, timestamp: u64 },
}

impl Clone for TimelineItem {
    fn clone(&self) -> (r: Self)
        ensures
            r == *self,
    {
        match self {
            TimelineItem::Message { sender, content, timestamp } => TimelineItem::Message {
                sender: sender.clone(),
                content: content.clone(),
                timestamp: *timestamp,
            },
            TimelineItem::TimiteConnected { nick, timestamp } => TimelineItem::TimiteConnected {
                nick: nick.clone(),
                timestamp: *timestamp,
            },
            TimelineItem::TimiteDisconnected {
                nick,
                timestamp,
            } => TimelineItem::TimiteDisconnected { nick: nick.clone(), timestamp: *timestamp },
            TimelineItem::AbilityCall {
                caller,
                ability_name,
                timestamp,
            } => TimelineItem::AbilityCall {
                caller: caller.clone(),
                ability_name: ability_name.clone(),
                timestamp: *timestamp,
            },
            TimelineItem::AbilityOutcome {
                ability_name,
                success,
                timestamp,
            } => TimelineItem::AbilityOutcome {
                ability_name: ability_name.clone(),
                success: *success,
                timestamp: *timestamp,
            },
        }
    }
}

impl TimelineItem {
    /// The time of the entry, in milliseconds.
    pub open spec fn time(self) -> u64 {
        match self {
            TimelineItem::Message { timestamp, .. } => timestamp,
            TimelineItem::TimiteConnected { timestamp, .. } => timestamp,
            TimelineItem::TimiteDisconnected { timestamp, .. } => timestamp,
            TimelineItem::AbilityCall { timestamp, .. } => timestamp,
            TimelineItem::AbilityOutcome { timestamp, .. } => timestamp,
        }
    }

    /// The number of lines that the entry takes on the screen: those of its
    /// content and at least one for a message, one for everything else.
    pub open spec fn height(self) -> int {
        match self {
            TimelineItem::Message { content, .. } => if count_lines(content@) < 1 {
                1
            } else {
                count_lines(content@)
            },
            _ => 1,
        }
    }

    /// The time of the entry, in milliseconds.
    pub fn timestamp(&self) -> (t: u64)
        ensures
            t == self.time(),
    {
        match self {
            TimelineItem::Message { timestamp, .. } => *timestamp,
            TimelineItem::TimiteConnected { timestamp, .. } => *timestamp,
            TimelineItem::TimiteDisconnected { timestamp, .. } => *timestamp,
            TimelineItem::AbilityCall { timestamp, .. } => *timestamp,
            TimelineItem::AbilityOutcome { timestamp, .. } => *timestamp,
        }
    }

    /// The number of lines that the entry takes on the screen.
    pub fn line_count(&self) -> (n: usize)
        ensures
            n == self.height(),
            n >= 1,
    {
        match self {
            TimelineItem::Message { content, .. } => {
                let n = lines_in(content.as_str());
                if n < 1 {
                    1
                } else {
                    n
                }
            },
            _ => 1,
        }
    }
}

/// The number of lines that some entries take on the screen together.
pub open spec fn total_height(items: Seq<TimelineItem>) -> int
    decreases items.len(),
{
    if items.len() == 0 {
        0
    } else {
        total_height(items.drop_last()) + items.last().height()
    }
}

/// The smaller of a number and the largest `usize`.
pub open spec fn capped(n: int) -> int {
    if n > usize::MAX {
        usize::MAX as int
    } else {
        n
    }
}

/// The position of the cursor: `at`, but never beyond a text of `len` characters.
pub open spec fn clamped(at: int, len: int) -> int {
    if at > len {
        len
    } else {
        at
    }
}

/// The time of an event in milliseconds since the epoch; 0 where the time
/// lies before the epoch or beyond what 64 bits hold.
pub open spec fn millis_of(time: Timestamp) -> u64 {
    if time.seconds >= 0 && time.nanos >= 0 && time.seconds * 1000 + time.nanos / 1_000_000
        <= u64::MAX {
        (time.seconds * 1000 + time.nanos / 1_000_000) as u64
    } else {
        0
    }
}

/// The name under which a participant is shown: its nick where one is
/// known, else `user-` and its id.
pub open spec fn shown_name(cache: Map<u64, String>, id: u64) -> Seq<char> {
    if cache.contains_key(id) {
        cache[id]@
    } else {
        "user-"@ + decimal(id as nat)
    }
}

/// The time of an event in milliseconds since the epoch.
pub fn event_millis(time: &Timestamp) -> (ms: u64)
    ensures
        ms == millis_of(*time),
{
    if time.seconds < 0 || time.nanos < 0 {
        return 0;
    }
    let seconds: u64 = time.seconds as u64;
    let part: u64 = (time.nanos / 1_000_000) as u64;
    if seconds > (u64::MAX - part) / 1000 {
        return 0;
    }
    seconds * 1000 + part
}

/// The state of the terminal client.
pub struct App {
    pub running: bool,
    pub input_mode: InputMode,
    pub input: String,
    pub cursor_position: usize,
    pub timeline: Vec<TimelineItem>,
    pub timeline_scroll: usize,
    pub online_timites: HashMap<u64, Timite>,
    pub timite_nick_cache: HashMap<u64, String>,
    pub abilities: Vec<TimiteAbilities>,
    pub my_timite_id: u64,
    pub my_nick: String,
    pub show_help: bool,
}

impl App {
    /// Everything but the input line and its cursor is as in `before`.
    pub open spec fn same_but_input(&self, before: App) -> bool {
        &&& self.running == before.running
        &&& self.input_mode == before.input_mode
        &&& self.timeline == before.timeline
        &&& self.timeline_scroll == before.timeline_scroll
        &&& self.online_timites == before.online_timites
        &&& self.timite_nick_cache == before.timite_nick_cache
        &&& self.abilities == before.abilities
        &&& self.my_timite_id == before.my_timite_id
        &&& self.my_nick == before.my_nick
        &&& self.show_help == before.show_help
    }

    /// Everything but the timeline and who is known and online is as in `before`.
    pub open spec fn same_but_timeline(&self, before: App) -> bool {
        &&& self.running == before.running
        &&& self.input_mode == before.input_mode
        &&& self.input == before.input
        &&& self.cursor_position == before.cursor_position
        &&& self.timeline_scroll == before.timeline_scroll
        &&& self.abilities == before.abilities
        &&& self.my_timite_id == before.my_timite_id
        &&& self.my_nick == before.my_nick
        &&& self.show_help == before.show_help
    }

    /// The client of the participant `my_timite_id`, running, in normal mode,
    /// with nothing typed and nothing shown; it knows its own nick.
    pub fn new(my_timite_id: u64, my_nick: String) -> (app: Self)
        ensures
            app.running,
            app.input_mode == InputMode::Normal,
            app.input@.len() == 0,
            app.cursor_position == 0,
            app.timeline@.len() == 0,
            app.timeline_scroll == 0,
            app.online_timites@ == Map::<u64, Timite>::empty(),
            app.timite_nick_cache@ == Map::<u64, String>::empty().insert(my_timite_id, my_nick),
            app.abilities@.len() == 0,
            app.my_timite_id == my_timite_id,
            app.my_nick == my_nick,
            !app.show_help,
    {
        let mut timite_nick_cache: HashMap<u64, String> = HashMap::new();
        timite_nick_cache.insert(my_timite_id, my_nick.clone());
        App {
            running: true,
            input_mode: InputMode::Normal,
            input: String::new(),
            cursor_position: 0,
            timeline: Vec::new(),
            timeline_scroll: 0,
            online_timites: HashMap::new(),
            timite_nick_cache,
            abilities: Vec::new(),
            my_timite_id,
            my_nick,
            show_help: false,
        }
    }

    pub fn quit(&mut self)
        ensures
            *final(self) == (App { running: false, ..*old(self) }),
    {
        self.running = false;
    }

    pub fn toggle_help(&mut self)
        ensures
            *final(self) == (App { show_help: !old(self).show_help, ..*old(self) }),
    {
        self.show_help = !self.show_help;
    }

    pub fn enter_insert_mode(&mut self)
        ensures
            *final(self) == (App { input_mode: InputMode::Insert, ..*old(self) }),
    {
        self.input_mode = InputMode::Insert;
    }

    pub fn enter_normal_mode(&mut self)
        ensures
            *final(self) == (App { input_mode: InputMode::Normal, ..*old(self) }),
    {
        self.input_mode = InputMode::Normal;
    }

    /// The cursor one character to the left, where there is one.
    pub fn move_cursor_left(&mut self)
        ensures
            final(self).cursor_position == clamped(
                if old(self).cursor_position == 0 {
                    0
                } else {
                    old(self).cursor_position - 1
                },
                old(self).input@.len() as int,
            ),
            final(self).input == old(self).input,
            final(self).same_but_input(*old(self)),
    {
        let cursor_moved_left = if self.cursor_position == 0 {
            0
        } else {
            self.cursor_position - 1
        };
        self.cursor_position = self.clamp_cursor(cursor_moved_left);
    }

    /// The cursor one character to the right, where there is one.
    pub fn move_cursor_right(&mut self)
        ensures
            final(self).cursor_position == clamped(
                capped(old(self).cursor_position + 1),
                old(self).input@.len() as int,
            ),
            final(self).input == old(self).input,
            final(self).same_but_input(*old(self)),
    {
        let cursor_moved_right = if self.cursor_position == usize::MAX {
            usize::MAX
        } else {
            self.cursor_position + 1
        };
        self.cursor_position = self.clamp_cursor(cursor_moved_right);
    }

    /// The cursor on the line above, in the same column or at the end of
    /// that line where it is shorter; it stays where it is on the first line.
    pub fn move_cursor_up(&mut self)
        ensures
            final(self).input == old(self).input,
            final(self).same_but_input(*old(self)),
            ({
                let s = old(self).input@;
                let (line, col) = line_col(s, clamped(old(self).cursor_position as int, s.len() as int));
                final(self).cursor_position == if line == 0 {
                    old(self).cursor_position as int
                } else {
                    start_of_line(s, (line - 1) as nat) + if col < length_of_line(
                        s,
                        (line - 1) as nat,
                    ) {
                        col
                    } else {
                        length_of_line(s, (line - 1) as nat)
                    }
                }
            }),
    {
        let (line, col) = self.cursor_line_col();
        if line == 0 {
            return ;
        }
        let chars = self.input.as_str().unicode_len();
        proof {
            lemma_line_bounds(self.input@, (line - 1) as nat);
        }
        let prev_line_start = self.line_start(line - 1);
        let prev_line_len = self.line_len(line - 1);
        let new_col = if col < prev_line_len {
            col
        } else {
            prev_line_len
        };
        self.cursor_position = prev_line_start + new_col;
    }

    /// The cursor on the line below, in the same column or at the end of
    /// that line where it is shorter; it stays where it is on the last line.
    pub fn move_cursor_down(&mut self)
        ensures
            final(self).input == old(self).input,
            final(self).same_but_input(*old(self)),
            ({
                let s = old(self).input@;
                let (line, col) = line_col(s, clamped(old(self).cursor_position as int, s.len() as int));
                final(self).cursor_position == if line >= count_newlines(s) {
                    old(self).cursor_position as int
                } else {
                    start_of_line(s, (line + 1) as nat) + if col < length_of_line(
                        s,
                        (line + 1) as nat,
                    ) {
                        col
                    } else {
                        length_of_line(s, (line + 1) as nat)
                    }
                }
            }),
    {
        let (line, col) = self.cursor_line_col();
        let last_line = newlines_in(self.input.as_str());
        if line >= last_line {
            return ;
        }
        let chars = self.input.as_str().unicode_len();
        proof {
            lemma_line_bounds(self.input@, (line + 1) as nat);
        }
        let next_line_start = self.line_start(line + 1);
        let next_line_len = self.line_len(line + 1);
        let new_col = if col < next_line_len {
            col
        } else {
            next_line_len
        };
        self.cursor_position = next_line_start + new_col;
    }

    /// Puts `c` in at the cursor and moves the cursor behind it.
    pub fn enter_char(&mut self, c: char)
        ensures
            final(self).input@ == old(self).input@.insert(
                clamped(old(self).cursor_position as int, old(self).input@.len() as int),
                c,
            ),
            final(self).cursor_position == clamped(
                capped(old(self).cursor_position + 1),
                old(self).input@.len() as int + 1,
            ),
            final(self).input@.len() <= usize::MAX,
            final(self).same_but_input(*old(self)),
    {
        self.input = with_char_at(self.input.as_str(), self.cursor_position, c);
        let chars = self.input.as_str().unicode_len();
        self.move_cursor_right();
    }

    /// Puts the pasted text in at the cursor, its line endings made line
    /// feeds, and moves the cursor behind it.
    pub fn paste(&mut self, text: &str)
        ensures
            final(self).same_but_input(*old(self)),
            ({
                let s = old(self).input@;
                let at = clamped(old(self).cursor_position as int, s.len() as int);
                let put = normalized(text@);
                &&& final(self).input@ == s.subrange(0, at) + put + s.subrange(at, s.len() as int)
                &&& final(self).cursor_position == if put.len() == 0 {
                    old(self).cursor_position as int
                } else {
                    at + put.len()
                }
            }),
    {
        let put = normalize_line_endings(text);
        let ghost s = self.input@;
        let ghost at = clamped(self.cursor_position as int, s.len() as int);
        let mut i: usize = 0;
        assert(self.input@ =~= s.subrange(0, at) + put@.subrange(0, 0) + s.subrange(
            at,
            s.len() as int,
        ));
        while i < put.len()
            invariant
                i <= put.len(),
                self.same_but_input(*old(self)),
                s == old(self).input@,
                at == clamped(old(self).cursor_position as int, s.len() as int),
                self.input@ == s.subrange(0, at) + put@.subrange(0, i as int) + s.subrange(
                    at,
                    s.len() as int,
                ),
                self.cursor_position == if i == 0 {
                    old(self).cursor_position as int
                } else {
                    at + i
                },
            decreases put.len() - i,
        {
            let ghost held = self.input@;
            self.enter_char(put[i]);
            proof {
                let p = clamped((if i == 0 {
                    old(self).cursor_position as int
                } else {
                    at + i
                }), held.len() as int);
                assert(held.len() == s.len() + i);
                assert(p == at + i);
                assert(self.input@.len() == held.len() + 1);
                assert(self.cursor_position == at + i + 1);
                assert(held.insert(p, put@[i as int]) =~= s.subrange(0, at) + put@.subrange(
                    0,
                    i + 1,
                ) + s.subrange(at, s.len() as int));
            }
            i += 1;
        }
        assert(put@.subrange(0, i as int) =~= put@);
    }

    /// Takes out the character before the cursor and moves the cursor onto
    /// its place; does nothing at the very beginning.
    pub fn delete_char(&mut self)
        ensures
            final(self).same_but_input(*old(self)),
            ({
                let s = old(self).input@;
                let c = old(self).cursor_position as int;
                if c == 0 {
                    final(self).input == old(self).input && final(self).cursor_position == 0
                } else {
                    &&& final(self).input@ == s.subrange(0, clamped(c - 1, s.len() as int))
                        + s.subrange(clamped(c, s.len() as int), s.len() as int)
                    &&& final(self).cursor_position == clamped(c - 1, final(self).input@.len() as int)
                }
            }),
    {
        if self.cursor_position == 0 {
            return ;
        }
        let n = self.input.as_str().unicode_len();
        let current_index = if self.cursor_position <= n {
            self.cursor_position
        } else {
            n
        };
        let from_left = if self.cursor_position - 1 <= n {
            self.cursor_position - 1
        } else {
            n
        };
        self.input = without_range(self.input.as_str(), from_left, current_index);
        self.move_cursor_left();
    }

    /// Hands out what was typed and empties the input line.
    pub fn take_input(&mut self) -> (input: String)
        ensures
            input == old(self).input,
            final(self).input@.len() == 0,
            final(self).cursor_position == 0,
            final(self).same_but_input(*old(self)),
    {
        let mut input = String::new();
        core::mem::swap(&mut self.input, &mut input);
        self.cursor_position = 0;
        input
    }

    /// `new_cursor_pos`, but never beyond the end of the input.
    pub fn clamp_cursor(&self, new_cursor_pos: usize) -> (r: usize)
        ensures
            r == clamped(new_cursor_pos as int, self.input@.len() as int),
    {
        let n = self.input.as_str().unicode_len();
        if new_cursor_pos > n {
            n
        } else {
            new_cursor_pos
        }
    }

    /// The byte at which the character under the cursor begins.
    pub fn byte_index(&self) -> (r: usize)
        requires
            4 * self.input@.len() <= usize::MAX,
        ensures
            r == byte_offset(
                self.input@,
                clamped(self.cursor_position as int, self.input@.len() as int),
            ),
    {
        byte_index_in(self.input.as_str(), self.cursor_position)
    }

    /// The number of lines of the input: one more than it has line feeds, as
    /// far as a `usize` holds it.
    pub fn input_line_count(&self) -> (r: usize)
        ensures
            r == capped(count_newlines(self.input@) + 1),
            r >= 1,
    {
        let n = self.input.as_str().unicode_len();
        if n == 0 {
            proof {
                assert(count_newlines(self.input@) == 0);
            }
            return 1;
        }
        let feeds = newlines_in(self.input.as_str());
        if feeds == usize::MAX {
            return usize::MAX;
        }
        feeds + 1
    }

    /// The line and the column of the cursor.
    pub fn cursor_line_col(&self) -> (r: (usize, usize))
        ensures
            r.0 == line_col(
                self.input@,
                clamped(self.cursor_position as int, self.input@.len() as int),
            ).0,
            r.1 == line_col(
                self.input@,
                clamped(self.cursor_position as int, self.input@.len() as int),
            ).1,
    {
        line_col_in(self.input.as_str(), self.cursor_position)
    }

    /// The position at which the line `target_line` of the input begins.
    pub fn line_start(&self, target_line: usize) -> (r: usize)
        ensures
            r == start_of_line(self.input@, target_line as nat),
            r <= self.input@.len(),
    {
        line_start_in(self.input.as_str(), target_line)
    }

    /// The number of characters of the line `target_line` of the input.
    pub fn line_len(&self, target_line: usize) -> (r: usize)
        ensures
            r == length_of_line(self.input@, target_line as nat),
            r <= self.input@.len() - start_of_line(self.input@, target_line as nat),
    {
        line_len_in(self.input.as_str(), target_line)
    }

    /// The number of lines that the timeline takes on the screen, as far as
    /// a `usize` holds it.
    pub fn timeline_line_count(&self) -> (r: usize)
        ensures
            r == capped(total_height(self.timeline@)),
    {
        let mut total: usize = 0;
        let mut i: usize = 0;
        assert(self.timeline@.subrange(0, 0) =~= Seq::<TimelineItem>::empty());
        while i < self.timeline.len()
            invariant
                i <= self.timeline.len(),
                total == capped(total_height(self.timeline@.subrange(0, i as int))),
                total_height(self.timeline@.subrange(0, i as int)) >= 0,
            decreases self.timeline.len() - i,
        {
            let n = self.timeline[i].line_count();
            proof {
                let items = self.timeline@;
                assert(items.subrange(0, i + 1).drop_last() =~= items.subrange(0, i as int));
                assert(items.subrange(0, i + 1).last() == items[i as int]);
            }
            total = if total > usize::MAX - n {
                usize::MAX
            } else {
                total + n
            };
            i += 1;
        }
        assert(self.timeline@.subrange(0, i as int) =~= self.timeline@);
        total
    }

    /// Shows the timeline one line further up.
    pub fn scroll_up(&mut self)
        ensures
            *final(self) == (App {
                timeline_scroll: if old(self).timeline_scroll == 0 {
                    0usize
                } else {
                    (old(self).timeline_scroll - 1) as usize
                },
                ..*old(self)
            }),
    {
        self.timeline_scroll = if self.timeline_scroll == 0 {
            0
        } else {
            self.timeline_scroll - 1
        };
    }

    /// Shows the timeline one line further down, but not beyond its last line.
    pub fn scroll_down(&mut self)
        ensures
            ({
                let lines = capped(total_height(old(self).timeline@));
                let max_scroll = if lines == 0 {
                    0
                } else {
                    lines - 1
                };
                let next = capped(old(self).timeline_scroll + 1);
                *final(self) == (App {
                    timeline_scroll: (if next < max_scroll {
                        next
                    } else {
                        max_scroll
                    }) as usize,
                    ..*old(self)
                })
            }),
    {
        let lines = self.timeline_line_count();
        let max_scroll = if lines == 0 {
            0
        } else {
            lines - 1
        };
        let next = if self.timeline_scroll == usize::MAX {
            usize::MAX
        } else {
            self.timeline_scroll + 1
        };
        self.timeline_scroll = if next < max_scroll {
            next
        } else {
            max_scroll
        };
    }

    /// Shows the last line of the timeline.
    pub fn scroll_to_bottom(&mut self)
        ensures
            ({
                let lines = capped(total_height(old(self).timeline@));
                *final(self) == (App {
                    timeline_scroll: (if lines == 0 {
                        0
                    } else {
                        lines - 1
                    }) as usize,
                    ..*old(self)
                })
            }),
    {
        let lines = self.timeline_line_count();
        self.timeline_scroll = if lines == 0 {
            0
        } else {
            lines - 1
        };
    }

    /// Takes an event of the space: one more entry in the timeline, and who
    /// is known and online kept up to date.
    pub fn handle_space_event(&mut self, event: SpaceEvent)
        ensures
            final(self).same_but_timeline(*old(self)),
            final(self).timeline@.len() == old(self).timeline@.len() + 1,
            final(self).timeline@.drop_last() == old(self).timeline@,
            final(self).timeline@.last().time() == millis_of(event.metadata.emitted_at),
            match event.data {
                EventData::NewMessage(message) => {
                    &&& final(self).timeline@.last() matches TimelineItem::Message {
                        sender,
                        content,
                        ..
                    } && sender@ == shown_name(old(self).timite_nick_cache@, message.sender_id)
                        && content == message.content
                    &&& final(self).timite_nick_cache@ == old(self).timite_nick_cache@
                    &&& final(self).online_timites@ == old(self).online_timites@
                },
                EventData::TimiteConnected(timite) => {
                    &&& final(self).timeline@.last() matches TimelineItem::TimiteConnected {
                        nick,
                        ..
                    } && nick == timite.nick
                    &&& final(self).timite_nick_cache@ == old(self).timite_nick_cache@.insert(
                        timite.id,
                        timite.nick,
                    )
                    &&& final(self).online_timites@ == old(self).online_timites@.insert(
                        timite.id,
                        timite,
                    )
                },
                EventData::TimiteDisconnected(timite) => {
                    &&& final(self).timeline@.last() matches TimelineItem::TimiteDisconnected {
                        nick,
                        ..
                    } && nick == timite.nick
                    &&& final(self).timite_nick_cache@ == old(self).timite_nick_cache@
                    &&& final(self).online_timites@ == old(self).online_timites@.remove(timite.id)
                },
                EventData::CallAbility(call) => {
                    &&& final(self).timeline@.last() matches TimelineItem::AbilityCall {
                        caller,
                        ability_name,
                        ..
                    } && caller@ == shown_name(old(self).timite_nick_cache@, call.sender_id)
                        && ability_name == call.name
                    &&& final(self).timite_nick_cache@ == old(self).timite_nick_cache@
                    &&& final(self).online_timites@ == old(self).online_timites@
                },
                EventData::CallAbilityOutcome(outcome) => {
                    &&& final(self).timeline@.last() matches TimelineItem::AbilityOutcome {
                        ability_name,
                        success,
                        ..
                    } && ability_name@ == "call-"@ + decimal(outcome.call_ability_id as nat)
                        && success == outcome.error.is_none()
                    &&& final(self).timite_nick_cache@ == old(self).timite_nick_cache@
                    &&& final(self).online_timites@ == old(self).online_timites@
                },
            },
    {
        let timestamp = event_millis(&event.metadata.emitted_at);
        let ghost before = self.timeline@;
        match event.data {
            EventData::NewMessage(message) => {
                self.add_message(message, timestamp);
            },
            EventData::TimiteConnected(timite) => {
                self.timite_connected(timite, timestamp);
            },
            EventData::TimiteDisconnected(timite) => {
                self.timite_disconnected(timite, timestamp);
            },
            EventData::CallAbility(call) => {
                self.ability_called(call, timestamp);
            },
            EventData::CallAbilityOutcome(outcome) => {
                self.ability_outcome(outcome, timestamp);
            },
        }
        assert(self.timeline@.drop_last() =~= before);
    }

    /// The name under which the participant `id` is shown.
    pub fn display_name(&self, id: u64) -> (name: String)
        ensures
            name@ == shown_name(self.timite_nick_cache@, id),
    {
        match self.timite_nick_cache.get(&id) {
            Some(nick) => nick.clone(),
            None => numbered("user-", id),
        }
    }

    /// Shows a message under the name of its sender.
    pub fn add_message(&mut self, message: Message, timestamp: u64)
        ensures
            final(self).same_but_timeline(*old(self)),
            final(self).timite_nick_cache == old(self).timite_nick_cache,
            final(self).online_timites == old(self).online_timites,
            final(self).timeline@.len() == old(self).timeline@.len() + 1,
            final(self).timeline@.drop_last() == old(self).timeline@,
            final(self).timeline@.last() matches TimelineItem::Message {
                sender,
                content,
                timestamp: t,
            } && sender@ == shown_name(old(self).timite_nick_cache@, message.sender_id) && content
                == message.content && t == timestamp,
    {
        let sender = self.display_name(message.sender_id);
        let ghost before = self.timeline@;
        self.timeline.push(TimelineItem::Message { sender, content: message.content, timestamp });
        assert(self.timeline@.drop_last() =~= before);
    }

    /// Shows an arrival, and keeps the participant as known and online.
    pub fn timite_connected(&mut self, timite: Timite, timestamp: u64)
        ensures
            final(self).same_but_timeline(*old(self)),
            final(self).timite_nick_cache@ == old(self).timite_nick_cache@.insert(
                timite.id,
                timite.nick,
            ),
            final(self).online_timites@ == old(self).online_timites@.insert(timite.id, timite),
            final(self).timeline@.len() == old(self).timeline@.len() + 1,
            final(self).timeline@.drop_last() == old(self).timeline@,
            final(self).timeline@.last() matches TimelineItem::TimiteConnected { nick, timestamp: t }
                && nick == timite.nick && t == timestamp,
    {
        let nick = timite.nick.clone();
        self.timite_nick_cache.insert(timite.id, nick.clone());
        self.online_timites.insert(timite.id, timite);
        let ghost before = self.timeline@;
        self.timeline.push(TimelineItem::TimiteConnected { nick, timestamp });
        assert(self.timeline@.drop_last() =~= before);
    }

    /// Shows a departure, and keeps the participant as no longer online.
    pub fn timite_disconnected(&mut self, timite: Timite, timestamp: u64)
        ensures
            final(self).same_but_timeline(*old(self)),
            final(self).timite_nick_cache == old(self).timite_nick_cache,
            final(self).online_timites@ == old(self).online_timites@.remove(timite.id),
            final(self).timeline@.len() == old(self).timeline@.len() + 1,
            final(self).timeline@.drop_last() == old(self).timeline@,
            final(self).timeline@.last() matches TimelineItem::TimiteDisconnected {
                nick,
                timestamp: t,
            } && nick == timite.nick && t == timestamp,
    {
        self.online_timites.remove(&timite.id);
        let ghost before = self.timeline@;
        self.timeline.push(TimelineItem::TimiteDisconnected { nick: timite.nick, timestamp });
        assert(self.timeline@.drop_last() =~= before);
    }

    /// Shows an ability call under the name of its caller.
    pub fn ability_called(&mut self, call: CallAbility, timestamp: u64)
        ensures
            final(self).same_but_timeline(*old(self)),
            final(self).timite_nick_cache == old(self).timite_nick_cache,
            final(self).online_timites == old(self).online_timites,
            final(self).timeline@.len() == old(self).timeline@.len() + 1,
            final(self).timeline@.drop_last() == old(self).timeline@,
            final(self).timeline@.last() matches TimelineItem::AbilityCall {
                caller,
                ability_name,
                timestamp: t,
            } && caller@ == shown_name(old(self).timite_nick_cache@, call.sender_id)
                && ability_name == call.name && t == timestamp,
    {
        let caller = self.display_name(call.sender_id);
        let ghost before = self.timeline@;
        self.timeline.push(TimelineItem::AbilityCall { caller, ability_name: call.name, timestamp });
        assert(self.timeline@.drop_last() =~= before);
    }

    /// Shows the outcome of an ability call: a success where it carries no error.
    pub fn ability_outcome(&mut self, outcome: CallAbilityOutcome, timestamp: u64)
        ensures
            final(self).same_but_timeline(*old(self)),
            final(self).timite_nick_cache == old(self).timite_nick_cache,
            final(self).online_timites == old(self).online_timites,
            final(self).timeline@.len() == old(self).timeline@.len() + 1,
            final(self).timeline@.drop_last() == old(self).timeline@,
            final(self).timeline@.last() matches TimelineItem::AbilityOutcome {
                ability_name,
                success,
                timestamp: t,
            } && ability_name@ == "call-"@ + decimal(outcome.call_ability_id as nat) && success
                == outcome.error.is_none() && t == timestamp,
    {
        let ghost before = self.timeline@;
        self.timeline.push(
            TimelineItem::AbilityOutcome {
                ability_name: numbered("call-", outcome.call_ability_id),
                success: outcome.error.is_none(),
                timestamp,
            },
        );
        assert(self.timeline@.drop_last() =~= before);
    }

    /// Replaces the abilities that the client knows.
    pub fn set_abilities(&mut self, abilities: Vec<TimiteAbilities>)
        ensures
            *final(self) == (App { abilities, ..*old(self) }),
    {
        self.abilities = abilities;
    }

    /// Keeps the nick of a participant.
    pub fn add_timite_to_cache(&mut self, timite: &Timite)
        ensures
            final(self).timite_nick_cache@ == old(self).timite_nick_cache@.insert(
                timite.id,
                timite.nick,
            ),
            final(self).online_timites == old(self).online_timites,
            final(self).timeline == old(self).timeline,
            final(self).same_but_timeline(*old(self)),
    {
        self.timite_nick_cache.insert(timite.id, timite.nick.clone());
    }
}

/// The characters of the text with every line ending made a line feed.
pub fn normalize_line_endings(text: &str) -> (out: Vec<char>)
    ensures
        out@ == normalized(text@),
{
    let n = text.unicode_len();
    let mut out: Vec<char> = Vec::new();
    let mut i: usize = 0;
    assert(text@.skip(0) =~= text@);
    while i < n
        invariant
            n == text@.len(),
            i <= n,
            out@ + normalized(text@.skip(i as int)) == normalized(text@),
        decreases n - i,
    {
        let c = text.get_char(i);
        let ghost rest = text@.skip(i as int);
        let ghost held = out@;
        proof {
            assert(rest[0] == text@[i as int]);
        }
        if c == '\r' {
            out.push('\n');
            if i + 1 < n && text.get_char(i + 1) == '\n' {
                proof {
                    assert(rest[1] == text@[i + 1]);
                    assert(rest.skip(2) =~= text@.skip(i + 2));
                    assert(out@ + normalized(text@.skip(i + 2)) =~= held + normalized(rest));
                }
                i += 2;
            } else {
                proof {
                    assert(rest.skip(1) =~= text@.skip(i + 1));
                    if rest.len() > 1 {
                        assert(rest[1] == text@[i + 1]);
                    }
                    assert(out@ + normalized(text@.skip(i + 1)) =~= held + normalized(rest));
                }
                i += 1;
            }
        } else {
            out.push(c);
            proof {
                assert(rest.skip(1) =~= text@.skip(i + 1));
                assert(out@ + normalized(text@.skip(i + 1)) =~= held + normalized(rest));
            }
            i += 1;
        }
    }
    proof {
        assert(text@.skip(n as int) =~= Seq::<char>::empty());
        assert(out@ + Seq::<char>::empty() =~= out@);
    }
    out
}

} // verus!
