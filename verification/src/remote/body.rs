//! Requests as the chat API takes them.
use vstd::prelude::*;
use crate::message::{
    copy_calls, message_views, opt_call_views, Message, MessageRole, MessageView, ToolCall,
    ToolCallView,
};
use crate::provider::{ProviderRequest, ToolDefinition};
use crate::text::{copy_opt, opt_view, owned, slice_string, to_chars};

verus! {

/// A message as the chat API takes it.
#[derive(Debug, PartialEq, Eq)]
pub struct OpenAIMessage {
    pub role: String,
    pub content: Option<String>,
    pub tool_calls: Option<Vec<ToolCall>>,
    pub tool_call_id: Option<String>,
}

/// The value of a `OpenAIMessage`.
pub struct OpenAIMessageView {
    pub role: Seq<char>,
    pub content: Option<Seq<char>>,
    pub tool_calls: Option<Seq<ToolCallView>>,
    pub tool_call_id: Option<Seq<char>>,
}

impl View for OpenAIMessage {
    type V = OpenAIMessageView;

    open spec fn view(&self) -> OpenAIMessageView {
        OpenAIMessageView {
            role: self.role@,
            content: opt_view(self.content),
            tool_calls: opt_call_views(self.tool_calls),
            tool_call_id: opt_view(self.tool_call_id),
        }
    }
}

/// The values of a list of `OpenAIMessage`.
pub open spec fn openai_message_views(s: Seq<OpenAIMessage>) -> Seq<OpenAIMessageView> {
    Seq::new(s.len(), |i: int| s[i]@)
}

/// How many tokens the model may answer with.
pub const MAX_RESPONSE_TOKENS: u32 = 4096;

/// A request as the chat API takes it, apart from the sampling temperature.
#[derive(Debug, PartialEq, Eq)]
pub struct ChatRequest {
    pub model: String,
    pub messages: Vec<OpenAIMessage>,
    /// Left out where there is none.
    pub tools: Option<Vec<ToolDefinition>>,
    pub stream: bool,
    pub max_tokens: u32,
}

/// A provider that is reached by the chat API: its name, its model, its address and the key.
#[derive(Debug)]
pub struct RemoteProvider {
    name: String,
    model: String,
    api_base: String,
    api_key: String,
}

/// The value of a `RemoteProvider`.
pub struct RemoteProviderView {
    pub name: Seq<char>,
    pub model: Seq<char>,
    pub api_base: Seq<char>,
    pub api_key: Seq<char>,
}

impl View for RemoteProvider {
    type V = RemoteProviderView;

    closed spec fn view(&self) -> RemoteProviderView {
        RemoteProviderView {
            name: self.name@,
            model: self.model@,
            api_base: self.api_base@,
            api_key: self.api_key@,
        }
    }
}

/// The text without the slashes at its end.
pub open spec fn without_end_slashes(s: Seq<char>) -> Seq<char>
    decreases s.len(),
{
    if s.len() > 0 && s.last() == '/' {
        without_end_slashes(s.drop_last())
    } else {
        s
    }
}

/// The name of a role in the chat API.
pub open spec fn role_name(role: MessageRole) -> Seq<char> {
    match role {
        MessageRole::System => "system"@,
        MessageRole::User => "user"@,
        MessageRole::Assistant => "assistant"@,
        MessageRole::Tool => "tool"@,
    }
}

/// A message as the chat API takes it: an empty content is left out.
pub open spec fn openai_message(m: MessageView) -> OpenAIMessageView {
    OpenAIMessageView {
        role: role_name(m.role),
        content: if m.content.len() == 0 {
            None
        } else {
            Some(m.content)
        },
        tool_calls: m.tool_calls,
        tool_call_id: m.tool_call_id,
    }
}

/// Messages as the chat API takes them.
pub open spec fn openai_messages(messages: Seq<MessageView>) -> Seq<OpenAIMessageView> {
    Seq::new(messages.len(), |i: int| openai_message(messages[i]))
}

/// A message as the chat API takes it.
pub fn convert_message_to_openai(msg: &Message) -> (r: OpenAIMessage)
    ensures
        r@ == openai_message(msg@),
{
    let role = match msg.role {
        MessageRole::System => "system",
        MessageRole::User => "user",
        MessageRole::Assistant => "assistant",
        MessageRole::Tool => "tool",
    };
    let content = if to_chars(msg.content.as_str()).len() == 0 {
        None
    } else {
        Some(msg.content.clone())
    };
    let tool_calls = match &msg.tool_calls {
        Some(calls) => Some(copy_calls(calls)),
        None => None,
    };
    OpenAIMessage {
        role: owned(role),
        content,
        tool_calls,
        tool_call_id: copy_opt(&msg.tool_call_id),
    }
}

impl RemoteProvider {
    /// A provider at an address, with the key for it.
    pub fn new(name: &str, model: &str, api_base: &str, api_key: &str) -> (r: Self)
        ensures
            r@ == (RemoteProviderView {
                name: name@,
                model: model@,
                api_base: api_base@,
                api_key: api_key@,
            }),
    {
        RemoteProvider {
            name: owned(name),
            model: owned(model),
            api_base: owned(api_base),
            api_key: owned(api_key),
        }
    }

    /// The name of the provider.
    pub fn name(&self) -> (r: &str)
        ensures
            r@ == self@.name,
    {
        self.name.as_str()
    }

    /// The model.
    pub fn model(&self) -> (r: &str)
        ensures
            r@ == self@.model,
    {
        self.model.as_str()
    }

    /// The address that requests go to.
    pub fn chat_url(&self) -> (r: String)
        ensures
            r@ == without_end_slashes(self@.api_base) + "/chat/completions"@,
    {
        let v = to_chars(self.api_base.as_str());
        let mut end: usize = v.len();
        proof {
            assert(v@.subrange(0, v@.len() as int) =~= v@);
        }
        while end > 0 && v[end - 1] == '/'
            invariant
                end <= v@.len(),
                without_end_slashes(v@) == without_end_slashes(v@.subrange(0, end as int)),
            decreases end,
        {
            proof {
                assert(v@.subrange(0, end as int).drop_last() =~= v@.subrange(0, end - 1));
            }
            end -= 1;
        }
        slice_string(&v, 0, end).concat("/chat/completions")
    }

    /// The header that proves who asks.
    pub fn authorization(&self) -> (r: String)
        ensures
            r@ == "Bearer "@ + self@.api_key,
    {
        owned("Bearer ").concat(self.api_key.as_str())
    }

    /// A request as the chat API takes it.
    pub fn build_request_body(&self, request: ProviderRequest, stream: bool) -> (r: ChatRequest)
        ensures
            r.model@ == self@.model,
            openai_message_views(r.messages@) == openai_messages(message_views(request.messages@)),
            r.tools == if request.tools@.len() == 0 {
                None
            } else {
                Some(request.tools)
            },
            r.stream == stream,
            r.max_tokens == MAX_RESPONSE_TOKENS,
    {
        let mut messages: Vec<OpenAIMessage> = Vec::new();
        let mut i: usize = 0;
        let ghost all = openai_messages(message_views(request.messages@));
        while i < request.messages.len()
            invariant
                i <= request.messages@.len(),
                all == openai_messages(message_views(request.messages@)),
                openai_message_views(messages@) == all.take(i as int),
            decreases request.messages.len() - i,
        {
            let m = convert_message_to_openai(&request.messages[i]);
            proof {
                assert(openai_message_views(messages@.push(m)) =~= openai_message_views(
                    messages@,
                ).push(m@));
                assert(all.take(i + 1) =~= all.take(i as int).push(m@));
            }
            messages.push(m);
            i += 1;
        }
        proof {
            assert(all.take(request.messages@.len() as int) =~= all);
        }
        let tools = if request.tools.len() == 0 {
            None
        } else {
            Some(request.tools)
        };
        ChatRequest {
            model: self.model.clone(),
            messages,
            tools,
            stream,
            max_tokens: MAX_RESPONSE_TOKENS,
        }
    }
}

} // verus!
