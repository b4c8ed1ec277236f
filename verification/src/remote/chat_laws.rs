//! What holds of every request to the chat API and of every complete reply.
use vstd::prelude::*;
use crate::message::{MessageRole, MessageView};
use crate::number::decimal;
use crate::provider::ProviderResponseView;
use crate::remote::body::{openai_messages, role_name, without_end_slashes, MAX_RESPONSE_TOKENS};
use crate::remote::response::{chat_response, remote_error_text, ChatMessageView, RemoteErrorView};

verus! {

/// Messages are sent in their order, each with its own role, text, calls and call id; only an
/// empty text is left out.
pub proof fn messages_are_sent_as_they_are(messages: Seq<MessageView>, i: int)
    requires
        0 <= i < messages.len(),
    ensures
        openai_messages(messages).len() == messages.len(),
        ({
            let sent = openai_messages(messages)[i];
            &&& messages[i].content.len() > 0 ==> sent.content == Some(messages[i].content)
            &&& messages[i].content.len() == 0 ==> sent.content is None
            &&& sent.tool_calls == messages[i].tool_calls
            &&& sent.tool_call_id == messages[i].tool_call_id
            &&& messages[i].role is System ==> sent.role == "system"@
            &&& messages[i].role is User ==> sent.role == "user"@
            &&& messages[i].role is Assistant ==> sent.role == "assistant"@
            &&& messages[i].role is Tool ==> sent.role == "tool"@
        }),
        MAX_RESPONSE_TOKENS == 4096,
{
}

/// No two roles go by the same name.
pub proof fn roles_have_different_names(a: MessageRole, b: MessageRole)
    requires
        role_name(a) == role_name(b),
    ensures
        a == b,
{
    reveal_strlit("system");
    reveal_strlit("user");
    reveal_strlit("assistant");
    reveal_strlit("tool");
    assert("user"@[0] == 'u' && "tool"@[0] == 't');
    assert("system"@.len() == 6 && "user"@.len() == 4 && "assistant"@.len() == 9);
    assert("tool"@.len() == 4);
    match a {
        MessageRole::System => {},
        MessageRole::User => {},
        MessageRole::Assistant => {},
        MessageRole::Tool => {},
    }
    match b {
        MessageRole::System => {},
        MessageRole::User => {},
        MessageRole::Assistant => {},
        MessageRole::Tool => {},
    }
}

/// However many slashes an address ends with, they are all cut, and nothing else.
pub proof fn end_slashes_are_cut(base: Seq<char>, slashes: Seq<char>)
    requires
        base.len() == 0 || base.last() != '/',
        forall|i: int| 0 <= i < slashes.len() ==> #[trigger] slashes[i] == '/',
    ensures
        without_end_slashes(base + slashes) == base,
    decreases slashes.len(),
{
    if slashes.len() == 0 {
        assert(base + slashes =~= base);
    } else {
        let less = slashes.drop_last();
        assert(slashes[slashes.len() - 1] == '/');
        assert((base + slashes).last() == '/');
        assert((base + slashes).drop_last() =~= base + less);
        assert forall|i: int| 0 <= i < less.len() implies #[trigger] less[i] == '/' by {
            assert(less[i] == slashes[i]);
        }
        end_slashes_are_cut(base, less);
    }
}

/// The first alternative of a reply counts: its calls where it has any, each as it is but
/// with an empty object for missing arguments, and else its text.
pub proof fn first_alternatives_count(first: ChatMessageView, others: Seq<ChatMessageView>)
    ensures
        ({
            let means = chat_response(seq![first] + others);
            &&& means is Ok
            &&& first.tool_calls is Some && first.tool_calls->0.len() > 0 ==> {
                let calls = first.tool_calls->0;
                &&& means->Ok_0 is ToolCalls
                &&& means->Ok_0->calls.len() == calls.len()
                &&& forall|i: int|
                    0 <= i < calls.len() ==> {
                        let call = #[trigger] means->Ok_0->calls[i];
                        &&& call.id == calls[i].id
                        &&& call.name == calls[i].name
                        &&& calls[i].arguments.len() > 0 ==> call.arguments == calls[i].arguments
                        &&& calls[i].arguments.len() == 0 ==> call.arguments == "{}"@
                    }
            }
            &&& first.tool_calls is None || first.tool_calls->0.len() == 0 ==> {
                &&& means->Ok_0 is Text
                &&& first.content is Some ==> means->Ok_0->content == first.content->0
                &&& first.content is None ==> means->Ok_0->content.len() == 0
            }
        }),
{
    assert((seq![first] + others)[0] == first);
}

/// A reply without any alternative is an error.
pub proof fn replies_need_an_alternative()
    ensures
        chat_response(Seq::empty()) == Err::<ProviderResponseView, RemoteErrorView>(
            RemoteErrorView::EmptyChoices,
        ),
{
}

/// A refusal of the service is told with its number and its text.
pub proof fn refusals_are_told_in_full(status: u32, body: Seq<char>)
    ensures
        remote_error_text(RemoteErrorView::Http { status, body }) == "LLM provider returned HTTP "@
            + (decimal(status as nat) + ": "@ + body),
        remote_error_text(RemoteErrorView::EmptyChoices) == "LLM returned empty choices array"@,
        remote_error_text(RemoteErrorView::EmptyStream)
            == "LLM streaming response ended without content or tool calls"@,
{
    assert("LLM provider returned HTTP "@ + decimal(status as nat) + ": "@ + body
        =~= "LLM provider returned HTTP "@ + (decimal(status as nat) + ": "@ + body));
}

} // verus!
