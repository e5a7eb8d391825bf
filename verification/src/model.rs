//! Messages of a conversation and the tool calls in them.

use crate::composer;
use crate::text;
use vstd::prelude::*;

verus! {

/// The function that a tool call names, with its arguments as text.
#[derive(Debug, Clone, PartialEq, Eq)]
pub struct FunctionCall {
    pub name: String,
    pub arguments: String,
}

/// A tool call that the model asked for.
#[derive(Debug, Clone, PartialEq, Eq)]
pub struct ToolCall {
    pub id: String,
    pub type_: String,
    pub function: FunctionCall,
}

/// What a tool call holds.
#[verifier::ext_equal]
pub struct ToolCallView {
    pub id: Seq<char>,
    pub type_: Seq<char>,
    pub name: Seq<char>,
    pub arguments: Seq<char>,
}

impl View for ToolCall {
    type V = ToolCallView;

    open spec fn view(&self) -> ToolCallView {
        ToolCallView {
            id: self.id@,
            type_: self.type_@,
            name: self.function.name@,
            arguments: self.function.arguments@,
        }
    }
}

impl ToolCall {
    /// A copy of the call.
    pub fn copy(&self) -> (r: ToolCall)
        ensures
            r@ == self@,
    {
        ToolCall {
            id: text::copy_text(self.id.as_str()),
            type_: text::copy_text(self.type_.as_str()),
            function: FunctionCall {
                name: text::copy_text(self.function.name.as_str()),
                arguments: text::copy_text(self.function.arguments.as_str()),
            },
        }
    }
}

/// What the calls of a list hold.
pub open spec fn calls(list: Seq<ToolCall>) -> Seq<ToolCallView> {
    list.map_values(|c: ToolCall| c@)
}

/// Copies a list of calls.
pub fn copy_calls(list: &Vec<ToolCall>) -> (r: Vec<ToolCall>)
    ensures
        calls(r@) == calls(list@),
        r@.len() == list@.len(),
{
    let mut r: Vec<ToolCall> = Vec::new();
    for i in 0..list.len()
        invariant
            r@.len() == i,
            forall|j: int| 0 <= j < i ==> (#[trigger] r@[j])@ == list@[j]@,
    {
        r.push(list[i].copy());
    }
    assert(calls(r@) =~= calls(list@));
    r
}

/// The names of the functions that calls ask for.
pub open spec fn call_names(list: Seq<ToolCallView>) -> Seq<Seq<char>> {
    list.map_values(|c: ToolCallView| c.name)
}

/// The names of the functions that calls ask for.
pub fn names_of_calls(list: &Vec<ToolCall>) -> (r: Vec<String>)
    ensures
        text::texts(r@) == call_names(calls(list@)),
        r@.len() == list@.len(),
{
    let mut r: Vec<String> = Vec::new();
    for i in 0..list.len()
        invariant
            r@.len() == i,
            forall|j: int| 0 <= j < i ==> (#[trigger] r@[j])@ == list@[j].function.name@,
    {
        r.push(text::copy_text(list[i].function.name.as_str()));
    }
    assert(text::texts(r@) =~= call_names(calls(list@)));
    r
}

/// What running a tool call gave.
#[derive(Debug, Clone, PartialEq, Eq)]
pub struct ToolResult {
    pub name: String,
    pub call_id: String,
    pub content: String,
}

/// What a tool result holds.
#[verifier::ext_equal]
pub struct ToolResultView {
    pub name: Seq<char>,
    pub call_id: Seq<char>,
    pub content: Seq<char>,
}

impl View for ToolResult {
    type V = ToolResultView;

    open spec fn view(&self) -> ToolResultView {
        ToolResultView { name: self.name@, call_id: self.call_id@, content: self.content@ }
    }
}

impl ToolResult {
    /// A copy of the result.
    pub fn copy(&self) -> (r: ToolResult)
        ensures
            r@ == self@,
    {
        ToolResult {
            name: text::copy_text(self.name.as_str()),
            call_id: text::copy_text(self.call_id.as_str()),
            content: text::copy_text(self.content.as_str()),
        }
    }
}

/// What the results of a list hold.
pub open spec fn results_view(list: Seq<ToolResult>) -> Seq<ToolResultView> {
    list.map_values(|c: ToolResult| c@)
}

/// One message of a conversation. `id` is empty until the message is first shown.
#[derive(Debug, Clone, PartialEq, Eq)]
pub struct Message {
    pub role: String,
    pub content: String,
    pub id: String,
    pub tool_call_id: Option<String>,
    pub tool_calls: Vec<ToolCall>,
    pub reasoning_content: String,
}

/// What a message holds.
#[verifier::ext_equal]
pub struct MessageView {
    pub role: Seq<char>,
    pub content: Seq<char>,
    pub id: Seq<char>,
    pub call_id: Option<Seq<char>>,
    pub calls: Seq<ToolCallView>,
    pub reasoning: Seq<char>,
}

impl View for Message {
    type V = MessageView;

    open spec fn view(&self) -> MessageView {
        MessageView {
            role: self.role@,
            content: self.content@,
            id: self.id@,
            call_id: composer::opt_text(self.tool_call_id),
            calls: calls(self.tool_calls@),
            reasoning: self.reasoning_content@,
        }
    }
}

/// A message of the given role without id, calls or reasoning.
pub open spec fn plain_message(role: Seq<char>, content: Seq<char>) -> MessageView {
    MessageView {
        role: role,
        content: content,
        id: Seq::empty(),
        call_id: None,
        calls: Seq::empty(),
        reasoning: Seq::empty(),
    }
}

impl Message {
    fn plain(role: &str, content: &str) -> (r: Message)
        ensures
            r@ == plain_message(role@, content@),
    {
        let r = Message {
            role: text::copy_text(role),
            content: text::copy_text(content),
            id: String::new(),
            tool_call_id: None,
            tool_calls: Vec::new(),
            reasoning_content: String::new(),
        };
        assert(r@ =~= plain_message(role@, content@));
        r
    }

    /// What the user said.
    pub fn user(content: &str) -> (r: Message)
        ensures
            r@ == plain_message("user"@, content@),
    {
        Message::plain("user", content)
    }

    /// A note of the interface itself.
    pub fn system(content: &str) -> (r: Message)
        ensures
            r@ == plain_message("system"@, content@),
    {
        Message::plain("system", content)
    }

    /// What a tool call gave.
    pub fn tool(call_id: &str, content: &str) -> (r: Message)
        ensures
            r@ == (MessageView { call_id: Some(call_id@), ..plain_message("tool"@, content@) }),
    {
        let mut r = Message::plain("tool", content);
        r.tool_call_id = Some(text::copy_text(call_id));
        r
    }

    /// A reply of the model, with the tool calls that it asks for.
    pub fn assistant_with_tools(content: &str, tool_calls: Vec<ToolCall>) -> (r: Message)
        ensures
            r@ == (MessageView {
                calls: calls(tool_calls@),
                ..plain_message("assistant"@, content@)
            }),
    {
        let mut r = Message::plain("assistant", content);
        r.tool_calls = tool_calls;
        r
    }

    /// A copy of the message.
    pub fn copy(&self) -> (r: Message)
        ensures
            r@ == self@,
    {
        Message {
            role: text::copy_text(self.role.as_str()),
            content: text::copy_text(self.content.as_str()),
            id: text::copy_text(self.id.as_str()),
            tool_call_id: composer::copy_opt(&self.tool_call_id),
            tool_calls: copy_calls(&self.tool_calls),
            reasoning_content: text::copy_text(self.reasoning_content.as_str()),
        }
    }

    /// Whether the message has the given role.
    pub fn has_role(&self, role: &str) -> (r: bool)
        ensures
            r == (self@.role == role@),
    {
        text::same_text(self.role.as_str(), role)
    }
}

/// What the messages of a list hold.
pub open spec fn messages(list: Seq<Message>) -> Seq<MessageView> {
    list.map_values(|m: Message| m@)
}

/// Pushing onto a list of messages pushes onto its contents.
pub proof fn messages_push(list: Seq<Message>, m: Message)
    ensures
        messages(list.push(m)) == messages(list).push(m@),
{
    assert(messages(list.push(m)) =~= messages(list).push(m@));
}

/// Copies the messages `from..to` of a list.
pub fn copy_messages(list: &Vec<Message>, from: usize, to: usize) -> (r: Vec<Message>)
    requires
        from <= to <= list@.len(),
    ensures
        messages(r@) == messages(list@).subrange(from as int, to as int),
{
    let mut r: Vec<Message> = Vec::new();
    let mut i: usize = from;
    while i < to
        invariant
            from <= i <= to <= list@.len(),
            r@.len() == i - from,
            forall|j: int| 0 <= j < i - from ==> (#[trigger] r@[j])@ == list@[from + j]@,
        decreases to - i,
    {
        r.push(list[i].copy());
        i = i + 1;
    }
    assert(messages(r@) =~= messages(list@).subrange(from as int, to as int));
    r
}

/// The contents of the messages of the user, oldest first.
pub open spec fn user_texts(history: Seq<MessageView>) -> Seq<Seq<char>>
    decreases history.len(),
{
    if history.len() == 0 {
        Seq::empty()
    } else if history.last().role == "user"@ {
        user_texts(history.drop_last()).push(history.last().content)
    } else {
        user_texts(history.drop_last())
    }
}

/// The contents of the messages of the user, oldest first.
pub fn user_history(history: &Vec<Message>) -> (r: Vec<String>)
    ensures
        text::texts(r@) == user_texts(messages(history@)),
{
    let mut r: Vec<String> = Vec::new();
    let ghost all = messages(history@);
    assert(text::texts(r@) =~= user_texts(all.take(0)));
    for i in 0..history.len()
        invariant
            all == messages(history@),
            text::texts(r@) == user_texts(all.take(i as int)),
    {
        assert(all.take(i + 1).drop_last() =~= all.take(i as int));
        assert(all.take(i + 1).last() == history@[i as int]@);
        if history[i].has_role("user") {
            let text = text::copy_text(history[i].content.as_str());
            proof {
                text::texts_push(r@, text);
            }
            r.push(text);
        }
    }
    assert(all.take(all.len() as int) =~= all);
    r
}

} // verus!
