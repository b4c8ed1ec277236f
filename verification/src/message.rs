//! Conversation messages and the history that holds them.
use vstd::prelude::*;
use crate::clock::unix_millis;
use crate::text::{copy_opt, opt_view, owned};

verus! {

/// Who wrote a message.
#[derive(Debug, Clone, Copy, PartialEq, Eq, Structural)]
pub enum MessageRole {
    System,
    User,
    Assistant,
    Tool,
}

/// A tool call that the model asks for: its id, the tool, and its arguments as JSON text.
#[derive(Debug, PartialEq, Eq)]
pub struct ToolCall {
    pub id: String,
    pub name: String,
    pub arguments: String,
}

/// The value of a tool call.
pub struct ToolCallView {
    pub id: Seq<char>,
    pub name: Seq<char>,
    pub arguments: Seq<char>,
}

impl View for ToolCall {
    type V = ToolCallView;

    open spec fn view(&self) -> ToolCallView {
        ToolCallView { id: self.id@, name: self.name@, arguments: self.arguments@ }
    }
}

impl Clone for ToolCall {
    fn clone(&self) -> (r: Self)
        ensures
            r@ == self@,
    {
        ToolCall {
            id: self.id.clone(),
            name: self.name.clone(),
            arguments: self.arguments.clone(),
        }
    }
}

/// The values of a list of tool calls.
pub open spec fn call_views(calls: Seq<ToolCall>) -> Seq<ToolCallView> {
    Seq::new(calls.len(), |i: int| calls[i]@)
}

/// A copy of a list of tool calls.
pub fn copy_calls(calls: &Vec<ToolCall>) -> (r: Vec<ToolCall>)
    ensures
        call_views(r@) == call_views(calls@),
{
    let mut r: Vec<ToolCall> = Vec::new();
    let mut i: usize = 0;
    while i < calls.len()
        invariant
            i <= calls@.len(),
            call_views(r@) == call_views(calls@).take(i as int),
        decreases calls.len() - i,
    {
        let call = calls[i].clone();
        proof {
            assert(call_views(r@.push(call)) =~= call_views(r@).push(call@));
            assert(call_views(calls@).take(i + 1) =~= call_views(calls@).take(i as int).push(
                calls@[i as int]@,
            ));
        }
        r.push(call);
        i += 1;
    }
    proof {
        assert(call_views(calls@).take(calls@.len() as int) =~= call_views(calls@));
    }
    r
}

/// One message of a conversation.
///
/// An assistant message may carry tool calls; a tool message names the call it answers.
#[derive(Debug, PartialEq, Eq)]
pub struct Message {
    pub role: MessageRole,
    pub content: String,
    pub created_at_ms: u64,
    pub tool_calls: Option<Vec<ToolCall>>,
    pub tool_call_id: Option<String>,
}

/// The value of a message.
pub struct MessageView {
    pub role: MessageRole,
    pub content: Seq<char>,
    pub created_at_ms: u64,
    pub tool_calls: Option<Seq<ToolCallView>>,
    pub tool_call_id: Option<Seq<char>>,
}

/// The value of an optional list of tool calls.
pub open spec fn opt_call_views(calls: Option<Vec<ToolCall>>) -> Option<Seq<ToolCallView>> {
    match calls {
        Some(c) => Some(call_views(c@)),
        None => None,
    }
}

impl View for Message {
    type V = MessageView;

    open spec fn view(&self) -> MessageView {
        MessageView {
            role: self.role,
            content: self.content@,
            created_at_ms: self.created_at_ms,
            tool_calls: opt_call_views(self.tool_calls),
            tool_call_id: opt_view(self.tool_call_id),
        }
    }
}

impl Clone for Message {
    fn clone(&self) -> (r: Self)
        ensures
            r@ == self@,
    {
        let tool_calls = match &self.tool_calls {
            Some(calls) => Some(copy_calls(calls)),
            None => None,
        };
        Message {
            role: self.role,
            content: self.content.clone(),
            created_at_ms: self.created_at_ms,
            tool_calls,
            tool_call_id: copy_opt(&self.tool_call_id),
        }
    }
}

/// The values of a list of messages.
pub open spec fn message_views(messages: Seq<Message>) -> Seq<MessageView> {
    Seq::new(messages.len(), |i: int| messages[i]@)
}

pub proof fn lemma_message_views_push(messages: Seq<Message>, m: Message)
    ensures
        message_views(messages.push(m)) == message_views(messages).push(m@),
{
    assert(message_views(messages.push(m)) =~= message_views(messages).push(m@));
}

/// A plain message of a role.
pub open spec fn plain_message(role: MessageRole, content: Seq<char>, now: u64) -> MessageView {
    MessageView { role, content, created_at_ms: now, tool_calls: None, tool_call_id: None }
}

/// An assistant message that asks for tool calls.
pub open spec fn call_message(
    content: Seq<char>,
    calls: Seq<ToolCallView>,
    now: u64,
) -> MessageView {
    MessageView {
        role: MessageRole::Assistant,
        content,
        created_at_ms: now,
        tool_calls: Some(calls),
        tool_call_id: None,
    }
}

/// A tool message that answers the call `id`.
pub open spec fn result_message(content: Seq<char>, id: Seq<char>, now: u64) -> MessageView {
    MessageView {
        role: MessageRole::Tool,
        content,
        created_at_ms: now,
        tool_calls: None,
        tool_call_id: Some(id),
    }
}

impl Message {
    /// A message written at `now`, without tool calls.
    pub fn plain_at(role: MessageRole, content: &str, now: u64) -> (r: Self)
        ensures
            r@ == plain_message(role, content@, now),
    {
        Message {
            role,
            content: owned(content),
            created_at_ms: now,
            tool_calls: None,
            tool_call_id: None,
        }
    }

    /// An assistant message that asks for `calls`, written at `now`.
    pub fn assistant_with_tool_calls_at(content: &str, calls: Vec<ToolCall>, now: u64) -> (r: Self)
        ensures
            r@ == call_message(content@, call_views(calls@), now),
    {
        Message {
            role: MessageRole::Assistant,
            content: owned(content),
            created_at_ms: now,
            tool_calls: Some(calls),
            tool_call_id: None,
        }
    }

    /// A tool message that answers the call `id`, written at `now`.
    pub fn tool_result_at(content: &str, id: &str, now: u64) -> (r: Self)
        ensures
            r@ == result_message(content@, id@, now),
    {
        Message {
            role: MessageRole::Tool,
            content: owned(content),
            created_at_ms: now,
            tool_calls: None,
            tool_call_id: Some(owned(id)),
        }
    }

    /// A system message written now.
    pub fn system(content: &str) -> (r: Self)
        ensures
            r@ == plain_message(MessageRole::System, content@, r.created_at_ms),
    {
        Message::plain_at(MessageRole::System, content, unix_millis())
    }

    /// A user message written now.
    pub fn user(content: &str) -> (r: Self)
        ensures
            r@ == plain_message(MessageRole::User, content@, r.created_at_ms),
    {
        Message::plain_at(MessageRole::User, content, unix_millis())
    }

    /// An assistant message written now.
    pub fn assistant(content: &str) -> (r: Self)
        ensures
            r@ == plain_message(MessageRole::Assistant, content@, r.created_at_ms),
    {
        Message::plain_at(MessageRole::Assistant, content, unix_millis())
    }

    /// A tool message that names no call, written now.
    pub fn tool(content: &str) -> (r: Self)
        ensures
            r@ == plain_message(MessageRole::Tool, content@, r.created_at_ms),
    {
        Message::plain_at(MessageRole::Tool, content, unix_millis())
    }

    /// An assistant message that asks for `calls`, written now.
    pub fn assistant_with_tool_calls(content: &str, calls: Vec<ToolCall>) -> (r: Self)
        ensures
            r@ == call_message(content@, call_views(calls@), r.created_at_ms),
    {
        Message::assistant_with_tool_calls_at(content, calls, unix_millis())
    }

    /// A tool message that answers the call `id`, written now.
    pub fn tool_result(content: &str, id: &str) -> (r: Self)
        ensures
            r@ == result_message(content@, id@, r.created_at_ms),
    {
        Message::tool_result_at(content, id, unix_millis())
    }
}

/// The messages of a session, oldest first.
#[derive(Debug, PartialEq, Eq)]
pub struct ConversationHistory {
    messages: Vec<Message>,
}

impl View for ConversationHistory {
    type V = Seq<MessageView>;

    closed spec fn view(&self) -> Seq<MessageView> {
        message_views(self.messages@)
    }
}

impl Clone for ConversationHistory {
    fn clone(&self) -> (r: Self)
        ensures
            r@ == self@,
    {
        ConversationHistory { messages: copy_messages(&self.messages) }
    }
}

impl ConversationHistory {
    /// An empty history.
    pub fn new() -> (r: Self)
        ensures
            r@ == Seq::<MessageView>::empty(),
    {
        let r = ConversationHistory { messages: Vec::new() };
        proof {
            assert(r@ =~= Seq::<MessageView>::empty());
        }
        r
    }

    /// A history that holds the given messages.
    pub fn from_messages(messages: Vec<Message>) -> (r: Self)
        ensures
            r@ == message_views(messages@),
    {
        ConversationHistory { messages }
    }

    /// Appends a message.
    pub fn push(&mut self, message: Message)
        ensures
            final(self)@ == old(self)@.push(message@),
    {
        proof {
            lemma_message_views_push(self.messages@, message);
        }
        self.messages.push(message);
    }

    /// Puts a message before all others.
    pub fn push_front(&mut self, message: Message)
        ensures
            final(self)@ == seq![message@] + old(self)@,
    {
        proof {
            assert(message_views(self.messages@.insert(0, message)) =~= seq![message@]
                + message_views(self.messages@));
        }
        self.messages.insert(0, message);
    }

    /// The messages, oldest first.
    pub fn messages(&self) -> (r: &Vec<Message>)
        ensures
            message_views(r@) == self@,
    {
        &self.messages
    }

    /// The number of messages.
    pub fn len(&self) -> (n: usize)
        ensures
            n == self@.len(),
    {
        self.messages.len()
    }

    /// Whether there is no message.
    pub fn is_empty(&self) -> (r: bool)
        ensures
            r == (self@.len() == 0),
    {
        self.messages.len() == 0
    }
}

/// A copy of a list of messages.
pub fn copy_messages(messages: &Vec<Message>) -> (r: Vec<Message>)
    ensures
        message_views(r@) == message_views(messages@),
{
    let mut r: Vec<Message> = Vec::new();
    let mut i: usize = 0;
    let ghost all = message_views(messages@);
    while i < messages.len()
        invariant
            i <= messages@.len(),
            all == message_views(messages@),
            message_views(r@) == all.take(i as int),
        decreases messages.len() - i,
    {
        let m = messages[i].clone();
        proof {
            lemma_message_views_push(r@, m);
            assert(all.take(i + 1) =~= all.take(i as int).push(messages@[i as int]@));
        }
        r.push(m);
        i += 1;
    }
    proof {
        assert(all.take(messages@.len() as int) =~= all);
    }
    r
}

} // verus!
