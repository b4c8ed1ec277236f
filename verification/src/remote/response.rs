//! What a complete reply of the chat API means.
use vstd::prelude::*;
use crate::message::{call_views, opt_call_views, ToolCall, ToolCallView};
use crate::number::{decimal, render_u64};
use crate::provider::{ProviderResponse, ProviderResponseView};
use crate::text::{opt_view, owned, to_chars};

verus! {

/// What one alternative of a reply holds.
#[derive(Debug, PartialEq, Eq)]
pub struct ChatMessage {
    pub content: Option<String>,
    pub tool_calls: Option<Vec<ToolCall>>,
}

/// The value of a `ChatMessage`.
pub struct ChatMessageView {
    pub content: Option<Seq<char>>,
    pub tool_calls: Option<Seq<ToolCallView>>,
}

impl View for ChatMessage {
    type V = ChatMessageView;

    open spec fn view(&self) -> ChatMessageView {
        ChatMessageView {
            content: opt_view(self.content),
            tool_calls: opt_call_views(self.tool_calls),
        }
    }
}

/// The values of a list of `ChatMessage`.
pub open spec fn chat_message_views(s: Seq<ChatMessage>) -> Seq<ChatMessageView> {
    Seq::new(s.len(), |i: int| s[i]@)
}

/// Why a reply cannot be used.
#[derive(Debug, PartialEq, Eq)]
pub enum RemoteError {
    EmptyChoices,
    EmptyStream,
    Http { status: u32, body: String },
}

/// The value of a `RemoteError`.
pub enum RemoteErrorView {
    EmptyChoices,
    EmptyStream,
    Http { status: u32, body: Seq<char> },
}

impl View for RemoteError {
    type V = RemoteErrorView;

    open spec fn view(&self) -> RemoteErrorView {
        match self {
            RemoteError::EmptyChoices => RemoteErrorView::EmptyChoices,
            RemoteError::EmptyStream => RemoteErrorView::EmptyStream,
            RemoteError::Http { status, body } => RemoteErrorView::Http {
                status: *status,
                body: body@,
            },
        }
    }
}

/// The text of a remote error.
pub open spec fn remote_error_text(e: RemoteErrorView) -> Seq<char> {
    match e {
        RemoteErrorView::EmptyChoices => "LLM returned empty choices array"@,
        RemoteErrorView::EmptyStream => "LLM streaming response ended without content or tool calls"@,
        RemoteErrorView::Http { status, body } => "LLM provider returned HTTP "@ + decimal(
            status as nat,
        ) + ": "@ + body,
    }
}

impl RemoteError {
    /// The text of the error.
    pub fn message(&self) -> (r: String)
        ensures
            r@ == remote_error_text(self@),
    {
        match self {
            RemoteError::EmptyChoices => owned("LLM returned empty choices array"),
            RemoteError::EmptyStream => owned(
                "LLM streaming response ended without content or tool calls",
            ),
            RemoteError::Http { status, body } => owned("LLM provider returned HTTP ").concat(
                render_u64(*status as u64).as_str(),
            ).concat(": ").concat(body.as_str()),
        }
    }
}

/// The value of a result that is a reply.
pub open spec fn response_result(r: Result<ProviderResponse, RemoteError>) -> Result<
    ProviderResponseView,
    RemoteErrorView,
> {
    match r {
        Ok(x) => Ok(x@),
        Err(e) => Err(e@),
    }
}

/// A tool call with an empty object for missing arguments.
pub open spec fn with_arguments(call: ToolCallView) -> ToolCallView {
    if call.arguments.len() == 0 {
        ToolCallView { arguments: "{}"@, ..call }
    } else {
        call
    }
}

/// Arguments with an empty object for missing ones.
pub fn arguments_or_empty(arguments: &str) -> (r: String)
    ensures
        r@ == if arguments@.len() == 0 {
            "{}"@
        } else {
            arguments@
        },
{
    if to_chars(arguments).len() == 0 {
        owned("{}")
    } else {
        owned(arguments)
    }
}

/// What a reply means: the tool calls of its first alternative, else its text.
pub open spec fn chat_response(choices: Seq<ChatMessageView>) -> Result<
    ProviderResponseView,
    RemoteErrorView,
> {
    if choices.len() == 0 {
        Err(RemoteErrorView::EmptyChoices)
    } else {
        let m = choices[0];
        if m.tool_calls is Some && m.tool_calls->0.len() > 0 {
            let calls = m.tool_calls->0;
            Ok(
                ProviderResponseView::ToolCalls {
                    calls: Seq::new(calls.len(), |i: int| with_arguments(calls[i])),
                },
            )
        } else {
            Ok(
                ProviderResponseView::Text {
                    content: match m.content {
                        Some(content) => content,
                        None => Seq::empty(),
                    },
                },
            )
        }
    }
}

fn fill_arguments(calls: &Vec<ToolCall>) -> (r: Vec<ToolCall>)
    ensures
        call_views(r@) == Seq::new(
            calls@.len(),
            |i: int| with_arguments(call_views(calls@)[i]),
        ),
{
    let mut r: Vec<ToolCall> = Vec::new();
    let mut i: usize = 0;
    let ghost all = Seq::new(calls@.len(), |k: int| with_arguments(call_views(calls@)[k]));
    while i < calls.len()
        invariant
            i <= calls@.len(),
            all == Seq::new(calls@.len(), |k: int| with_arguments(call_views(calls@)[k])),
            call_views(r@) == all.take(i as int),
        decreases calls.len() - i,
    {
        let call = ToolCall {
            id: calls[i].id.clone(),
            name: calls[i].name.clone(),
            arguments: arguments_or_empty(calls[i].arguments.as_str()),
        };
        proof {
            assert(call_views(calls@)[i as int] == calls@[i as int]@);
            assert(call@ == all[i as int]);
            assert(call_views(r@.push(call)) =~= call_views(r@).push(call@));
            assert(all.take(i + 1) =~= all.take(i as int).push(all[i as int]));
        }
        r.push(call);
        i += 1;
    }
    proof {
        assert(all.take(calls@.len() as int) =~= all);
    }
    r
}

/// What a reply means.
pub fn parse_chat_response(choices: &Vec<ChatMessage>) -> (r: Result<ProviderResponse, RemoteError>)
    ensures
        response_result(r) == chat_response(chat_message_views(choices@)),
{
    proof {
        assert(chat_message_views(choices@).len() == choices@.len());
    }
    if choices.len() == 0 {
        return Err(RemoteError::EmptyChoices);
    }
    proof {
        assert(chat_message_views(choices@)[0] == choices@[0]@);
    }
    match &choices[0].tool_calls {
        Some(calls) => {
            proof {
                assert(call_views(calls@).len() == calls@.len());
            }
            if calls.len() > 0 {
                return Ok(ProviderResponse::ToolCalls { calls: fill_arguments(calls) });
            }
        },
        None => {},
    }
    let content = match &choices[0].content {
        Some(content) => content.clone(),
        None => String::new(),
    };
    Ok(ProviderResponse::Text { content })
}

} // verus!
