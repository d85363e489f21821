//! What a language model is asked, what comes back piece by piece, and how
//! the pieces are put together.

use vstd::prelude::*;

verus! {

/// The name of the tool by which a model says that it will not answer.
pub const SILENCE_TOOL: &'static str = "TIM-LLM-SILENCE";

/// The system prompt and the message of one request.
#[derive(Debug)]
pub struct LlmReq<'a> {
    pub sysp: &'a str,
    pub msg: &'a str,
}

/// What the model did: it answered, or it kept silent and said why.
#[derive(Debug, PartialEq, Eq)]
pub enum LlmRes {
    Reply(String),
    NoResponse(String),
}

/// One piece of an answer as it streams in.
#[derive(Debug, PartialEq, Eq)]
pub enum LlmStreamEvent {
    ContentDelta(String),
    ToolCallDelta { id: String, name: Option<String>, arguments_delta: String, finished: bool },
    Completed,
}

/// A tool call as far as it has streamed in.
#[derive(Debug, PartialEq, Eq)]
pub struct ToolCall {
    pub id: String,
    pub name: Option<String>,
    pub arguments: String,
}

impl ToolCall {
    /// The call `id`, of which nothing is known yet.
    pub fn new(id: String) -> (call: Self)
        ensures
            call.id == id,
            call.name.is_none(),
            call.arguments@.len() == 0,
    {
        ToolCall { id, name: None, arguments: String::new() }
    }
}

/// What has streamed in so far: the text, and the tool calls in the order
/// in which they began.
#[derive(Debug, PartialEq, Eq)]
pub struct CollectedStream {
    pub message: String,
    pub tool_calls: Vec<ToolCall>,
}

/// The position of the call `id` among `calls`, or their number where it is
/// not among them.
pub open spec fn position_of(calls: Seq<ToolCall>, id: Seq<char>) -> int
    decreases calls.len(),
{
    if calls.len() == 0 {
        0
    } else if calls[0].id@ == id {
        0
    } else {
        1 + position_of(calls.skip(1), id)
    }
}

/// The position of a call lies among the calls or right behind them, and no
/// call before it has its id.
pub proof fn lemma_position_of(calls: Seq<ToolCall>, id: Seq<char>)
    ensures
        0 <= position_of(calls, id) <= calls.len(),
        position_of(calls, id) < calls.len() ==> calls[position_of(calls, id)].id@ == id,
        forall|i: int| 0 <= i < position_of(calls, id) ==> (#[trigger] calls[i]).id@ != id,
    decreases calls.len(),
{
    if calls.len() > 0 && calls[0].id@ != id {
        let rest = calls.skip(1);
        lemma_position_of(rest, id);
        assert forall|i: int| 0 <= i < position_of(calls, id) implies (#[trigger] calls[i]).id@
            != id by {
            if i > 0 {
                assert(rest[i - 1] == calls[i]);
            }
        }
        if position_of(calls, id) < calls.len() {
            assert(rest[position_of(rest, id)] == calls[position_of(calls, id)]);
        }
    }
}

impl CollectedStream {
    /// Nothing has streamed in.
    pub fn new() -> (collected: Self)
        ensures
            collected.message@.len() == 0,
            collected.tool_calls@.len() == 0,
    {
        CollectedStream { message: String::new(), tool_calls: Vec::new() }
    }

    /// The position of the call `id`, or the number of calls where there is
    /// none with that id.
    pub fn find_call(&self, id: &String) -> (at: usize)
        ensures
            at == position_of(self.tool_calls@, id@),
            at <= self.tool_calls@.len(),
    {
        let mut i: usize = 0;
        assert(self.tool_calls@.skip(0) =~= self.tool_calls@);
        while i < self.tool_calls.len()
            invariant
                i <= self.tool_calls.len(),
                position_of(self.tool_calls@, id@) == i + position_of(
                    self.tool_calls@.skip(i as int),
                    id@,
                ),
            decreases self.tool_calls.len() - i,
        {
            proof {
                assert(self.tool_calls@.skip(i as int)[0] == self.tool_calls@[i as int]);
                assert(self.tool_calls@.skip(i as int).skip(1) =~= self.tool_calls@.skip(i + 1));
            }
            if self.tool_calls[i].id == *id {
                return i;
            }
            i += 1;
        }
        i
    }

    /// Takes one piece of the answer and tells whether the answer is
    /// complete with it. A piece of text goes to the end of the text. A piece
    /// of a tool call goes to the call with its id, which begins with its
    /// first piece: a name replaces the name, arguments go to the end of the
    /// arguments.
    pub fn apply(&mut self, event: LlmStreamEvent) -> (done: bool)
        ensures
            match event {
                LlmStreamEvent::ContentDelta(delta) => {
                    &&& !done
                    &&& final(self).message@ == old(self).message@ + delta@
                    &&& final(self).tool_calls == old(self).tool_calls
                },
                LlmStreamEvent::ToolCallDelta { id, name, arguments_delta, finished } => {
                    let at = position_of(old(self).tool_calls@, id@);
                    let name_before = if at < old(self).tool_calls@.len() {
                        old(self).tool_calls@[at].name
                    } else {
                        None
                    };
                    let arguments_before = if at < old(self).tool_calls@.len() {
                        old(self).tool_calls@[at].arguments@
                    } else {
                        Seq::empty()
                    };
                    &&& !done
                    &&& final(self).message == old(self).message
                    &&& final(self).tool_calls@.len() == if at < old(self).tool_calls@.len() {
                        old(self).tool_calls@.len()
                    } else {
                        old(self).tool_calls@.len() + 1
                    }
                    &&& forall|i: int|
                        0 <= i < old(self).tool_calls@.len() && i != at ==> #[trigger] final(self).tool_calls@[i]
                            == old(self).tool_calls@[i]
                    &&& final(self).tool_calls@[at].id@ == id@
                    &&& final(self).tool_calls@[at].name == if name.is_some() {
                        name
                    } else {
                        name_before
                    }
                    &&& final(self).tool_calls@[at].arguments@ == arguments_before
                        + arguments_delta@
                },
                LlmStreamEvent::Completed => done && *final(self) == *old(self),
            },
    {
        match event {
            LlmStreamEvent::ContentDelta(delta) => {
                self.message.append(delta.as_str());
                false
            },
            LlmStreamEvent::ToolCallDelta { id, name, arguments_delta, finished } => {
                proof {
                    lemma_position_of(self.tool_calls@, id@);
                }
                let at = self.find_call(&id);
                if at == self.tool_calls.len() {
                    self.tool_calls.push(ToolCall::new(id));
                }
                let mut arguments = self.tool_calls[at].arguments.clone();
                arguments.append(arguments_delta.as_str());
                self.tool_calls[at].arguments = arguments;
                if let Some(name) = name {
                    self.tool_calls[at].name = Some(name);
                }
                false
            },
            LlmStreamEvent::Completed => true,
        }
    }
}

/// The call of the silence tool among `tool_calls`: the first that names it.
pub open spec fn silence_at(calls: Seq<ToolCall>) -> int
    decreases calls.len(),
{
    if calls.len() == 0 {
        0
    } else if calls[0].name matches Some(name) && name@ == SILENCE_TOOL@ {
        0
    } else {
        1 + silence_at(calls.skip(1))
    }
}

/// The arguments with which the model called the silence tool, where it
/// called it.
pub fn silence_arguments(tool_calls: &Vec<ToolCall>) -> (r: Option<&String>)
    ensures
        match r {
            Some(arguments) => silence_at(tool_calls@) < tool_calls@.len() && *arguments
                == tool_calls@[silence_at(tool_calls@)].arguments,
            None => silence_at(tool_calls@) >= tool_calls@.len(),
        },
{
    let wanted = String::from_str(SILENCE_TOOL);
    let mut i: usize = 0;
    assert(tool_calls@.skip(0) =~= tool_calls@);
    while i < tool_calls.len()
        invariant
            wanted@ == SILENCE_TOOL@,
            i <= tool_calls.len(),
            silence_at(tool_calls@) == i + silence_at(tool_calls@.skip(i as int)),
        decreases tool_calls.len() - i,
    {
        proof {
            assert(tool_calls@.skip(i as int)[0] == tool_calls@[i as int]);
            assert(tool_calls@.skip(i as int).skip(1) =~= tool_calls@.skip(i + 1));
        }
        let named = match &tool_calls[i].name {
            Some(name) => *name == wanted,
            None => false,
        };
        if named {
            return Some(&tool_calls[i].arguments);
        }
        i += 1;
    }
    None
}

} // verus!
