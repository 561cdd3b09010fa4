use vstd::prelude::*;

use crate::tools::ToolCall;

verus! {

/// Who wrote a message.
#[derive(Clone, Copy, PartialEq, Eq, Structural, Debug)]
pub enum Role {
    System,
    User,
    Assistant,
    Tool,
}

/// The name of a role on the wire.
pub open spec fn role_name(r: Role) -> Seq<char> {
    match r {
        Role::System => "system"@,
        Role::User => "user"@,
        Role::Assistant => "assistant"@,
        Role::Tool => "tool"@,
    }
}

impl Role {
    pub fn as_str(&self) -> (r: &'static str)
        ensures
            r@ == role_name(*self),
    {
        match self {
            Role::System => "system",
            Role::User => "user",
            Role::Assistant => "assistant",
            Role::Tool => "tool",
        }
    }
}

/// One entry of a conversation. Only assistant messages carry tool calls.
#[derive(Debug)]
pub struct Message {
    pub role: Role,
    pub content: String,
    pub tool_calls: Vec<ToolCall>,
}

impl Message {
    pub open spec fn well_formed(&self) -> bool {
        self.role != Role::Assistant ==> self.tool_calls@.len() == 0
    }

    pub fn system(content: String) -> (r: Message)
        ensures
            r.role == Role::System,
            r.content@ == content@,
            r.tool_calls@.len() == 0,
    {
        Message { role: Role::System, content, tool_calls: Vec::new() }
    }

    pub fn user(content: String) -> (r: Message)
        ensures
            r.role == Role::User,
            r.content@ == content@,
            r.tool_calls@.len() == 0,
    {
        Message { role: Role::User, content, tool_calls: Vec::new() }
    }

    pub fn assistant(content: String, tool_calls: Vec<ToolCall>) -> (r: Message)
        ensures
            r.role == Role::Assistant,
            r.content@ == content@,
            r.tool_calls@ == tool_calls@,
    {
        Message { role: Role::Assistant, content, tool_calls }
    }

    pub fn tool(content: String) -> (r: Message)
        ensures
            r.role == Role::Tool,
            r.content@ == content@,
            r.tool_calls@.len() == 0,
    {
        Message { role: Role::Tool, content, tool_calls: Vec::new() }
    }

    /// The message asks for at least one tool.
    pub fn is_tool_call(&self) -> (r: bool)
        ensures
            r == (self.tool_calls@.len() > 0),
    {
        self.tool_calls.len() > 0
    }
}

/// An ordered transcript that only ever grows at its end.
#[derive(Debug)]
pub struct Conversation {
    messages: Vec<Message>,
}

impl View for Conversation {
    type V = Seq<Message>;

    closed spec fn view(&self) -> Seq<Message> {
        self.messages@
    }
}

impl Conversation {
    pub open spec fn well_formed(&self) -> bool {
        forall|i: int| 0 <= i < self@.len() ==> (#[trigger] self@[i]).well_formed()
    }

    pub fn new() -> (r: Conversation)
        ensures
            r@.len() == 0,
            r.well_formed(),
    {
        Conversation { messages: Vec::new() }
    }

    /// Adds a message at the end; the earlier ones stay as they were.
    pub fn append(&mut self, m: Message)
        requires
            old(self).well_formed(),
            m.well_formed(),
        ensures
            final(self)@ == old(self)@.push(m),
            final(self).well_formed(),
    {
        self.messages.push(m);
        proof {
            assert forall|i: int| 0 <= i < self@.len() implies (#[trigger] self@[i]).well_formed() by {
                if i < old(self)@.len() {
                    assert(self@[i] == old(self)@[i]);
                }
            }
        }
    }

    pub fn last(&self) -> (r: Option<&Message>)
        ensures
            self@.len() == 0 ==> r is None,
            self@.len() > 0 ==> r == Some(&self@.last()),
    {
        if self.messages.len() == 0 {
            None
        } else {
            Some(&self.messages[self.messages.len() - 1])
        }
    }

    pub fn all(&self) -> (r: &Vec<Message>)
        ensures
            r@ == self@,
    {
        &self.messages
    }

    pub fn len(&self) -> (r: usize)
        ensures
            r == self@.len(),
    {
        self.messages.len()
    }
}

} // verus!
