//! What holds of every session and of its messages.
use vstd::prelude::*;
use crate::message::{call_message, plain_message, result_message, MessageRole, ToolCallView};
use crate::number::decimal;
use crate::provider::ProviderConfigView;
use crate::session::{context_of, fresh_session, session_id, SessionView};
use crate::text_laws::decimals_are_read_back;

verus! {

/// A message holds what it was made of: its role, its text, its time, and the calls it asks
/// for or the call it answers.
pub proof fn messages_hold_what_was_said(
    role: MessageRole,
    content: Seq<char>,
    calls: Seq<ToolCallView>,
    id: Seq<char>,
    now: u64,
)
    ensures
        ({
            let plain = plain_message(role, content, now);
            let asking = call_message(content, calls, now);
            let answer = result_message(content, id, now);
            &&& plain.role == role
            &&& plain.content == content && asking.content == content && answer.content == content
            &&& plain.created_at_ms == now && asking.created_at_ms == now && answer.created_at_ms
                == now
            &&& plain.tool_calls is None && plain.tool_call_id is None
            &&& asking.role == MessageRole::Assistant
            &&& asking.tool_calls == Some(calls)
            &&& asking.tool_call_id is None
            &&& answer.role == MessageRole::Tool
            &&& answer.tool_calls is None
            &&& answer.tool_call_id == Some(id)
        }),
{
}

/// A new session is empty, works where and with what it was told, and is as old as it is new.
pub proof fn new_sessions_are_empty(
    profile: Seq<char>,
    workspace: Seq<char>,
    provider: ProviderConfigView,
    now: u64,
    pid: u32,
)
    ensures
        ({
            let session = fresh_session(profile, workspace, provider, now, pid);
            &&& session.history.len() == 0
            &&& session.profile == profile
            &&& session.workspace == workspace
            &&& session.provider == provider
            &&& session.created_at_ms == now
            &&& session.updated_at_ms == now
            &&& session.id == "s-"@ + (decimal(now as nat) + "-"@ + decimal(pid as nat))
        }),
{
    reveal_strlit("s-");
    reveal_strlit("-");
    assert(session_id(now, pid) =~= "s-"@ + (decimal(now as nat) + "-"@ + decimal(pid as nat)));
}

/// Sessions that are created at different times, or by different processes, have different
/// ids.
pub proof fn new_sessions_have_their_own_ids(now_a: u64, pid_a: u32, now_b: u64, pid_b: u32)
    requires
        session_id(now_a, pid_a) == session_id(now_b, pid_b),
    ensures
        now_a == now_b,
        pid_a == pid_b,
{
    let a = decimal(now_a as nat);
    let b = decimal(now_b as nat);
    let c = decimal(pid_a as nat);
    let d = decimal(pid_b as nat);
    let s = session_id(now_a, pid_a);
    decimals_are_read_back(now_a as nat);
    decimals_are_read_back(now_b as nat);
    assert(s =~= seq!['s', '-'] + a + seq!['-'] + c);
    assert(s =~= seq!['s', '-'] + b + seq!['-'] + d);
    let at_a = 2 + a.len() as int;
    let at_b = 2 + b.len() as int;
    assert(s[at_a] == '-' && s[at_b] == '-');
    if a.len() < b.len() {
        assert((seq!['s', '-'] + b + seq!['-'] + d)[at_a] == b[a.len() as int]);
    }
    if b.len() < a.len() {
        assert((seq!['s', '-'] + a + seq!['-'] + c)[at_b] == a[b.len() as int]);
    }
    assert(s.subrange(2, at_a) =~= a);
    assert(s.subrange(2, at_b) =~= b);
    assert(s.skip(at_a + 1) =~= c);
    assert(s.skip(at_b + 1) =~= d);
    decimals_are_read_back(pid_a as nat);
    decimals_are_read_back(pid_b as nat);
}

/// Tools and providers learn of a session what it is, and how many messages it has.
pub proof fn contexts_tell_of_their_session(session: SessionView)
    requires
        session.history.len() <= usize::MAX,
    ensures
        context_of(session).session_id == session.id,
        context_of(session).profile == session.profile,
        context_of(session).workspace == session.workspace,
        context_of(session).provider == session.provider.name,
        context_of(session).model == session.provider.model,
        context_of(session).turn_index == session.history.len(),
{
}

} // verus!
