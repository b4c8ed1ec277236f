//! Fitting a conversation into the context window of the model.
use vstd::prelude::*;
use crate::agent::history::{
    call_ids, is_result, sanitize_messages, sanitized, take_results,
};
use crate::agent::history_laws::{
    all_calls_answered, answered_at, asked_right_before, lemma_answered_shift, no_orphan_results,
    results_carry_no_calls, sanitize_matches_calls_and_results,
};
use crate::agent::prompt::SYSTEM_PROMPT;
use crate::clock::unix_millis;
use crate::message::{
    call_views, message_views, plain_message, Message, MessageRole, MessageView, ToolCallView,
};
use crate::session::{Session, SessionView};
use crate::text::{same, to_chars};

verus! {

/// How many tokens a request may hold, by estimate; the rest of the model's window is
/// left to the reply and to tool output.
pub const MAX_CONTEXT_TOKENS: usize = 50_000;

/// One more than the limit: where a count is cut off.
const OVER_LIMIT: usize = 50_001;

/// The estimated number of tokens of a text: one for three characters.
pub open spec fn text_tokens(s: Seq<char>) -> nat {
    s.len() / 3
}

/// The estimated number of tokens of a list of tool calls.
pub open spec fn calls_tokens(calls: Seq<ToolCallView>) -> nat
    decreases calls.len(),
{
    if calls.len() == 0 {
        0
    } else {
        calls_tokens(calls.drop_last()) + text_tokens(calls.last().name) + text_tokens(
            calls.last().arguments,
        )
    }
}

/// The estimated number of tokens of a message.
pub open spec fn message_tokens(m: MessageView) -> nat {
    text_tokens(m.content) + match m.tool_calls {
        Some(calls) => calls_tokens(calls),
        None => 0,
    }
}

/// The estimated number of tokens of a list of messages.
pub open spec fn total_tokens(messages: Seq<MessageView>) -> nat
    decreases messages.len(),
{
    if messages.len() == 0 {
        0
    } else {
        message_tokens(messages[0]) + total_tokens(messages.drop_first())
    }
}

/// The messages once the oldest behind the first are dropped: as many as it takes to
/// keep to the limit, but never so many that fewer than four are left behind the first.
pub open spec fn trimmed(messages: Seq<MessageView>) -> Seq<MessageView>
    decreases messages.len(),
{
    if total_tokens(messages) > MAX_CONTEXT_TOKENS && messages.len() > 5 {
        trimmed(messages.remove(1))
    } else {
        messages
    }
}

/// The history with a system message first: its own, or the system prompt.
pub open spec fn with_system(clean: Seq<MessageView>, now: u64) -> Seq<MessageView> {
    if clean.len() > 0 && clean[0].role == MessageRole::System {
        clean
    } else {
        seq![plain_message(MessageRole::System, SYSTEM_PROMPT@, now)] + clean
    }
}

/// What is sent to the model of a history.
pub open spec fn window(history: Seq<MessageView>, now: u64) -> Seq<MessageView> {
    let full = with_system(sanitized(history), now);
    if total_tokens(full) <= MAX_CONTEXT_TOKENS {
        full
    } else {
        sanitized(trimmed(full))
    }
}

// ---------------------------------------------------------------------------
// Executable code
// ---------------------------------------------------------------------------

/// A count that stops just above the limit.
spec fn capped(n: nat) -> nat {
    if n <= MAX_CONTEXT_TOKENS {
        n
    } else {
        OVER_LIMIT as nat
    }
}

spec fn capped_total(messages: Seq<MessageView>) -> nat
    decreases messages.len(),
{
    if messages.len() == 0 {
        0
    } else {
        capped(message_tokens(messages[0])) + capped_total(messages.drop_first())
    }
}

proof fn lemma_capped_total(messages: Seq<MessageView>)
    ensures
        capped_total(messages) <= total_tokens(messages),
        total_tokens(messages) > MAX_CONTEXT_TOKENS <==> capped_total(messages)
            > MAX_CONTEXT_TOKENS,
        total_tokens(messages) <= MAX_CONTEXT_TOKENS ==> capped_total(messages) == total_tokens(
            messages,
        ),
        capped_total(messages) <= messages.len() * OVER_LIMIT,
    decreases messages.len(),
{
    if messages.len() > 0 {
        lemma_capped_total(messages.drop_first());
        assert(messages.len() * OVER_LIMIT == (messages.len() - 1) * OVER_LIMIT + OVER_LIMIT)
            by (nonlinear_arith);
    }
}

/// The estimated number of tokens of a text.
pub fn estimate_tokens(text: &str) -> (n: usize)
    ensures
        n == text_tokens(text@),
{
    to_chars(text).len() / 3
}

fn add_capped(a: usize, b: usize) -> (r: usize)
    requires
        a <= OVER_LIMIT,
    ensures
        r == capped((a + b) as nat),
        r <= OVER_LIMIT,
{
    if b > MAX_CONTEXT_TOKENS || a + b > MAX_CONTEXT_TOKENS {
        OVER_LIMIT
    } else {
        a + b
    }
}

/// The estimated number of tokens of a message, cut off just above the limit.
fn estimate_message_tokens(msg: &Message) -> (n: usize)
    ensures
        n == capped(message_tokens(msg@)),
        n <= OVER_LIMIT,
{
    let mut tokens: usize = add_capped(0, estimate_tokens(msg.content.as_str()));
    match &msg.tool_calls {
        Some(calls) => {
            let mut i: usize = 0;
            let ghost all = call_views(calls@);
            let ghost start = text_tokens(msg@.content);
            while i < calls.len()
                invariant
                    i <= calls@.len(),
                    all == call_views(calls@),
                    tokens <= OVER_LIMIT,
                    tokens == capped(start + calls_tokens(all.take(i as int))),
                decreases calls.len() - i,
            {
                proof {
                    assert(all.take(i + 1).drop_last() =~= all.take(i as int));
                    assert(all.take(i + 1).last() == calls@[i as int]@);
                }
                tokens = add_capped(tokens, estimate_tokens(calls[i].name.as_str()));
                tokens = add_capped(tokens, estimate_tokens(calls[i].arguments.as_str()));
                i += 1;
            }
            proof {
                assert(all.take(calls@.len() as int) =~= all);
            }
        },
        None => {},
    }
    tokens
}

/// The estimated number of tokens of a list of messages, each cut off just above the limit.
fn estimate_total(messages: &Vec<Message>) -> (n: u128)
    ensures
        n == capped_total(message_views(messages@)),
{
    let ghost all = message_views(messages@);
    let mut n: u128 = 0;
    let mut i: usize = messages.len();
    proof {
        assert(all.skip(messages@.len() as int) =~= Seq::empty());
    }
    while i > 0
        invariant
            i <= messages@.len() <= usize::MAX,
            all == message_views(messages@),
            n == capped_total(all.skip(i as int)),
        decreases i,
    {
        i -= 1;
        proof {
            assert(all.skip(i as int)[0] == messages@[i as int]@);
            assert(all.skip(i as int).drop_first() =~= all.skip(i + 1));
            lemma_capped_total(all.skip(i + 1));
            let k = all.skip(i + 1).len();
            assert(k * OVER_LIMIT <= usize::MAX * OVER_LIMIT) by (nonlinear_arith)
                requires
                    k <= usize::MAX,
            ;
            assert(usize::MAX * OVER_LIMIT + OVER_LIMIT <= u128::MAX);
        }
        n = n + estimate_message_tokens(&messages[i]) as u128;
    }
    proof {
        assert(all.skip(0) =~= all);
    }
    n
}

/// Drops the oldest messages behind the first while the list is over the limit.
fn trim_messages(messages: Vec<Message>) -> (r: Vec<Message>)
    ensures
        message_views(r@) == trimmed(message_views(messages@)),
{
    let mut full = messages;
    let mut current: u128 = estimate_total(&full);
    while current > MAX_CONTEXT_TOKENS as u128 && full.len() > 5
        invariant
            current == capped_total(message_views(full@)),
            trimmed(message_views(full@)) == trimmed(message_views(messages@)),
        decreases full.len(),
    {
        let removed: usize = estimate_message_tokens(&full[1]);
        proof {
            let all = message_views(full@);
            lemma_capped_total(all);
            assert(message_views(full@.remove(1)) =~= all.remove(1));
            assert(all.remove(1).drop_first() =~= all.drop_first().drop_first());
            assert(all.drop_first()[0] == full@[1]@);
            assert(all.remove(1)[0] == all[0]);
            assert(capped_total(all.drop_first()) == capped(message_tokens(full@[1]@))
                + capped_total(all.drop_first().drop_first()));
        }
        current = current - removed as u128;
        full.remove(1);
    }
    proof {
        lemma_capped_total(message_views(full@));
    }
    full
}

/// What is sent to the model of a session, where the system prompt, if it has to be
/// put first, is dated `now`.
pub fn build_messages_at(session: &Session, now: u64) -> (r: Vec<Message>)
    ensures
        message_views(r@) == window(session@.history, now),
{
    let messages = sanitize_messages(session.history.messages());
    let has_system = messages.len() > 0 && messages[0].role == MessageRole::System;
    let mut full = messages;
    if !has_system {
        let prompt = Message::plain_at(MessageRole::System, SYSTEM_PROMPT, now);
        proof {
            assert(message_views(full@.insert(0, prompt)) =~= seq![prompt@] + message_views(full@));
        }
        full.insert(0, prompt);
    }
    proof {
        lemma_capped_total(message_views(full@));
    }
    if estimate_total(&full) <= MAX_CONTEXT_TOKENS as u128 {
        return full;
    }
    let short = trim_messages(full);
    sanitize_messages(&short)
}

/// What is sent to the model of a session: its history, made valid and cut to the limit,
/// with a system message first.
pub fn build_messages_with_system(session: &Session) -> (r: Vec<Message>)
    ensures
        exists|now: u64| message_views(r@) == window(session@.history, now),
{
    build_messages_at(session, unix_millis())
}

/// The history with the system prompt first, unless it is there already.
pub open spec fn with_prompt(history: Seq<MessageView>, now: u64) -> Seq<MessageView> {
    if history.len() > 0 && history[0].content == SYSTEM_PROMPT@ {
        history
    } else {
        seq![plain_message(MessageRole::System, SYSTEM_PROMPT@, now)] + history
    }
}

/// Puts the system prompt before all messages, unless it is there already.
pub fn ensure_system_prompt(session: &mut Session)
    ensures
        exists|now: u64|
            final(session)@ == (SessionView {
                history: #[trigger] with_prompt(old(session)@.history, now),
                ..old(session)@
            }),
{
    let present = {
        let messages = session.history.messages();
        messages.len() > 0 && same(messages[0].content.as_str(), SYSTEM_PROMPT)
    };
    if !present {
        let prompt = Message::system(SYSTEM_PROMPT);
        proof {
            assert(prompt@ == plain_message(
                MessageRole::System,
                SYSTEM_PROMPT@,
                prompt.created_at_ms,
            ));
        }
        let ghost now = prompt.created_at_ms;
        session.history.push_front(prompt);
        proof {
            assert(session@.history == with_prompt(old(session)@.history, now));
        }
    } else {
        proof {
            assert(session@.history == with_prompt(old(session)@.history, 0));
        }
    }
}

// ---------------------------------------------------------------------------
// Laws
// ---------------------------------------------------------------------------

/// Whether no system message carries tool calls.
pub open spec fn systems_carry_no_calls(messages: Seq<MessageView>) -> bool {
    forall|k: int|
        0 <= k < messages.len() && (#[trigger] messages[k]).role == MessageRole::System
            ==> messages[k].tool_calls is None
}

proof fn lemma_total_append(a: Seq<MessageView>, b: Seq<MessageView>)
    ensures
        total_tokens(a + b) == total_tokens(a) + total_tokens(b),
    decreases a.len(),
{
    if a.len() == 0 {
        assert(a + b =~= b);
    } else {
        assert((a + b).drop_first() =~= a.drop_first() + b);
        assert((a + b)[0] == a[0]);
        lemma_total_append(a.drop_first(), b);
    }
}

proof fn lemma_total_one(m: MessageView)
    ensures
        total_tokens(seq![m]) == message_tokens(m),
{
    assert(seq![m].drop_first() =~= Seq::empty());
    assert(total_tokens(Seq::<MessageView>::empty()) == 0);
}

proof fn lemma_total_results(
    rest: Seq<MessageView>,
    pending: vstd::multiset::Multiset<Seq<char>>,
)
    requires
        take_results(rest, pending) is Some,
    ensures
        total_tokens((take_results(rest, pending)->0).0) + total_tokens(
            (take_results(rest, pending)->0).1,
        ) <= total_tokens(rest),
        (take_results(rest, pending)->0).1.len() <= rest.len(),
    decreases rest.len(),
{
    if pending.len() > 0 {
        match rest[0].tool_call_id {
            None => lemma_total_results(rest.drop_first(), pending),
            Some(id) => {
                lemma_total_results(rest.drop_first(), pending.remove(id));
                let k = (take_results(rest.drop_first(), pending.remove(id))->0).0;
                lemma_total_append(seq![rest[0]], k);
                lemma_total_one(rest[0]);
            },
        }
    }
}

/// Sanitizing never makes a list longer in tokens.
pub proof fn sanitize_never_adds_tokens(messages: Seq<MessageView>)
    ensures
        total_tokens(sanitized(messages)) <= total_tokens(messages),
    decreases messages.len(),
{
    if messages.len() > 0 {
        let m = messages[0];
        let rest = messages.drop_first();
        lemma_total_one(m);
        match m.tool_calls {
            Some(calls) if calls.len() > 0 => {
                let pending = call_ids(calls).to_multiset();
                match take_results(rest, pending) {
                    Some((kept, after)) => {
                        lemma_total_results(rest, pending);
                        sanitize_never_adds_tokens(after);
                        lemma_total_append(seq![m] + kept, sanitized(after));
                        lemma_total_append(seq![m], kept);
                    },
                    None => {
                        sanitize_never_adds_tokens(rest);
                    },
                }
            },
            _ => {
                sanitize_never_adds_tokens(rest);
                lemma_total_append(seq![m], sanitized(rest));
            },
        }
    }
}

/// What trimming keeps: the first message and the last four, in order; it stops as soon
/// as the limit is met or nothing else is left to drop.
pub proof fn trimming_keeps_first_and_latest(messages: Seq<MessageView>)
    requires
        messages.len() > 0,
    ensures
        ({
            let t = trimmed(messages);
            let n = t.len() - 1;
            &&& 0 < t.len() <= messages.len()
            &&& t[0] == messages[0]
            &&& t.drop_first() == messages.skip(messages.len() - n)
            &&& messages.len() >= 5 ==> t.len() >= 5
            &&& total_tokens(t) <= MAX_CONTEXT_TOKENS || t.len() <= 5
        }),
    decreases messages.len(),
{
    if total_tokens(messages) > MAX_CONTEXT_TOKENS && messages.len() > 5 {
        let less = messages.remove(1);
        trimming_keeps_first_and_latest(less);
        let n = trimmed(less).len() - 1;
        assert(less.skip(less.len() - n) =~= messages.skip(messages.len() - n));
    } else {
        assert(messages.drop_first() =~= messages.skip(1));
    }
}

/// The window keeps to the token limit, unless what is left are the first message and at
/// most four others.
pub proof fn window_keeps_to_limit(history: Seq<MessageView>, now: u64)
    ensures
        total_tokens(window(history, now)) <= MAX_CONTEXT_TOKENS || trimmed(
            with_system(sanitized(history), now),
        ).len() <= 5,
{
    let full = with_system(sanitized(history), now);
    trimming_keeps_first_and_latest(full);
    sanitize_never_adds_tokens(trimmed(full));
}

proof fn lemma_from_selection(
    messages: Seq<MessageView>,
    out: Seq<MessageView>,
)
    requires
        crate::agent::history_laws::is_selection(messages, out),
    ensures
        results_carry_no_calls(messages) ==> results_carry_no_calls(out),
        systems_carry_no_calls(messages) ==> systems_carry_no_calls(out),
{
    let at = choose|at: Seq<int>| crate::agent::history_laws::picked(messages, at, out);
    if results_carry_no_calls(messages) {
        assert forall|k: int| 0 <= k < out.len() && is_result(#[trigger] out[k]) implies
            out[k].tool_calls is None by {
            assert(out[k] == messages[at[k]]);
        }
    }
    if systems_carry_no_calls(messages) {
        assert forall|k: int|
            0 <= k < out.len() && (#[trigger] out[k]).role == MessageRole::System implies
            out[k].tool_calls is None by {
            assert(out[k] == messages[at[k]]);
        }
    }
}

proof fn lemma_trimmed_no_calls(messages: Seq<MessageView>)
    requires
        messages.len() > 0,
        results_carry_no_calls(messages),
    ensures
        results_carry_no_calls(trimmed(messages)),
{
    trimming_keeps_first_and_latest(messages);
    let t = trimmed(messages);
    let n = t.len() - 1;
    assert forall|k: int| 0 <= k < t.len() && is_result(#[trigger] t[k]) implies t[k].tool_calls
        is None by {
        if k > 0 {
            assert(t[k] == t.drop_first()[k - 1]);
            assert(t[k] == messages[messages.len() - n + k - 1]);
        } else {
            assert(t[k] == messages[0]);
        }
    }
}

/// Whatever is dropped, no tool result is sent without the call it answers, no call without
/// its results right behind it, and the first message sent is a system message.
pub proof fn window_is_valid(history: Seq<MessageView>, now: u64)
    requires
        results_carry_no_calls(history),
        systems_carry_no_calls(history),
    ensures
        no_orphan_results(window(history, now)),
        all_calls_answered(window(history, now)),
        window(history, now).len() > 0,
        window(history, now)[0].role == MessageRole::System,
{
    let clean = sanitized(history);
    crate::agent::history_laws::sanitize_only_leaves_out(history);
    lemma_from_selection(history, clean);
    sanitize_matches_calls_and_results(history);
    let full = with_system(clean, now);
    assert(results_carry_no_calls(full) && no_orphan_results(full)) by {
        if !(clean.len() > 0 && clean[0].role == MessageRole::System) {
            assert forall|k: int| 0 <= k < full.len() && is_result(#[trigger] full[k]) implies
                full[k].tool_calls is None && asked_right_before(
                full,
                k,
                full[k].tool_call_id->0,
            ) by {
                assert(k > 0);
                assert(full[k] == clean[k - 1]);
                assert(asked_right_before(clean, k - 1, clean[k - 1].tool_call_id->0));
                let p = choose|p: int|
                    0 <= p < k - 1 && #[trigger] clean[p].tool_calls is Some && k - 1 <= p
                        + clean[p].tool_calls->0.len() && call_ids(
                        clean[p].tool_calls->0,
                    ).contains(clean[k - 1].tool_call_id->0);
                assert(full[p + 1] == clean[p]);
            }
        }
    }
    assert(all_calls_answered(full)) by {
        if !(clean.len() > 0 && clean[0].role == MessageRole::System) {
            assert forall|k: int| 0 <= k < full.len() implies #[trigger] answered_at(full, k) by {
                if k > 0 {
                    assert(full.skip(1) =~= clean);
                    assert(answered_at(clean, k - 1));
                    lemma_answered_shift(full, clean, 1, k);
                }
            }
        }
    }
    let t = trimmed(full);
    trimming_keeps_first_and_latest(full);
    lemma_trimmed_no_calls(full);
    sanitize_matches_calls_and_results(t);
    assert(full[0].role == MessageRole::System && full[0].tool_calls is None);
    assert(sanitized(t) =~= seq![t[0]] + sanitized(t.drop_first()));
}

/// Asking for the system prompt twice is asking once.
pub proof fn system_prompt_is_added_once(history: Seq<MessageView>, first: u64, later: u64)
    ensures
        with_prompt(with_prompt(history, first), later) == with_prompt(history, first),
{
}

/// A text is estimated at one token for every three of its characters, and estimates add
/// up: over the name and the arguments of every call of a message, and over messages.
pub proof fn estimates_add_up(
    text: Seq<char>,
    m: MessageView,
    calls: Seq<ToolCallView>,
    call: ToolCallView,
    a: Seq<MessageView>,
    b: Seq<MessageView>,
)
    ensures
        3 * text_tokens(text) <= text.len() < 3 * text_tokens(text) + 3,
        m.tool_calls is None ==> message_tokens(m) == text_tokens(m.content),
        m.tool_calls == Some(Seq::<ToolCallView>::empty()) ==> message_tokens(m) == text_tokens(
            m.content,
        ),
        m.tool_calls == Some(calls.push(call)) ==> message_tokens(m) == message_tokens(
            MessageView { tool_calls: Some(calls), ..m },
        ) + text_tokens(call.name) + text_tokens(call.arguments),
        total_tokens(a + b) == total_tokens(a) + total_tokens(b),
        total_tokens(seq![m]) == message_tokens(m),
{
    lemma_total_append(a, b);
    lemma_total_one(m);
    assert(calls.push(call).drop_last() =~= calls);
}

/// Trimming drops no more than it must: what is kept, with the latest of the dropped
/// messages back in its place, is over the limit.
pub proof fn trimming_is_minimal(messages: Seq<MessageView>)
    requires
        messages.len() > 0,
        trimmed(messages).len() < messages.len(),
    ensures
        total_tokens(
            seq![messages[0]] + messages.skip(messages.len() - trimmed(messages).len()),
        ) > 50_000,
    decreases messages.len(),
{
    let less = messages.remove(1);
    let t = trimmed(messages);
    if t.len() == less.len() {
        trimming_keeps_first_and_latest(less);
        assert(seq![messages[0]] + messages.skip(1) =~= messages);
    } else {
        trimming_keeps_first_and_latest(less);
        trimming_is_minimal(less);
        let d = messages.len() - t.len();
        assert(less.skip(d - 1) =~= messages.skip(d));
        assert(less[0] == messages[0]);
    }
}

proof fn lemma_plain_is_valid(messages: Seq<MessageView>)
    requires
        forall|i: int|
            0 <= i < messages.len() ==> (#[trigger] messages[i]).tool_calls is None
                && messages[i].role != MessageRole::Tool,
    ensures
        sanitized(messages) == messages,
    decreases messages.len(),
{
    if messages.len() > 0 {
        let rest = messages.drop_first();
        assert(messages[0].tool_calls is None);
        assert forall|i: int| 0 <= i < rest.len() implies (#[trigger] rest[i]).tool_calls is None
            && rest[i].role != MessageRole::Tool by {
            assert(rest[i] == messages[i + 1]);
        }
        lemma_plain_is_valid(rest);
        assert(seq![messages[0]] + rest =~= messages);
    } else {
        assert(sanitized(messages) =~= messages);
    }
}

/// What is sent of a conversation without tools is a system message and as many of the
/// latest messages as fit, but at least four where there are so many: it keeps to the
/// limit unless only four are left, and with one more message it would not. The system
/// message is the conversation's own where it starts with one, else the system prompt.
pub proof fn window_holds_the_latest_that_fit(history: Seq<MessageView>, now: u64)
    requires
        forall|i: int|
            0 <= i < history.len() ==> (#[trigger] history[i]).tool_calls is None
                && history[i].role != MessageRole::Tool,
    ensures
        ({
            let sent = window(history, now);
            let own = history.len() > 0 && history[0].role == MessageRole::System;
            let others = if own {
                history.skip(1)
            } else {
                history
            };
            let n = sent.len() - 1;
            &&& sent.len() > 0
            &&& own ==> sent[0] == history[0]
            &&& !own ==> sent[0].role == MessageRole::System && sent[0].content == SYSTEM_PROMPT@
                && sent[0].tool_calls is None && sent[0].tool_call_id is None
            &&& n <= others.len()
            &&& sent.skip(1) == others.skip(others.len() - n)
            &&& total_tokens(sent) <= 50_000 || n <= 4
            &&& n < others.len() ==> n >= 4 && total_tokens(
                seq![sent[0]] + others.skip(others.len() - n - 1),
            ) > 50_000
        }),
{
    let full = with_system(history, now);
    let own = history.len() > 0 && history[0].role == MessageRole::System;
    let others = if own {
        history.skip(1)
    } else {
        history
    };
    assert(full =~= seq![full[0]] + others);
    lemma_plain_is_valid(history);
    let sent = window(history, now);
    if total_tokens(full) > MAX_CONTEXT_TOKENS {
        let t = trimmed(full);
        trimming_keeps_first_and_latest(full);
        assert forall|i: int| 0 <= i < t.len() implies (#[trigger] t[i]).tool_calls is None
            && t[i].role != MessageRole::Tool by {
            if i > 0 {
                assert(t[i] == t.drop_first()[i - 1]);
                let j = full.len() - (t.len() - 1) + i - 1;
                assert(t[i] == full[j]);
                assert(full[j] == others[j - 1]);
            }
        }
        lemma_plain_is_valid(t);
        let n = sent.len() - 1;
        assert(sent.skip(1) =~= sent.drop_first());
        assert(full.skip(full.len() - n) =~= others.skip(others.len() - n));
        if n < others.len() {
            trimming_is_minimal(full);
            assert(full.skip(full.len() - sent.len()) =~= others.skip(others.len() - n - 1));
        }
    } else {
        assert(sent.skip(1) =~= others.skip(0));
    }
}

/// A valid conversation that fits is sent whole, tool calls and all, behind a system message.
pub proof fn fitting_conversations_are_sent_whole(history: Seq<MessageView>, now: u64)
    requires
        sanitized(history) == history,
        history.len() > 0,
        history[0].role == MessageRole::System,
    ensures
        total_tokens(history) <= 50_000 ==> window(history, now) == history,
{
}

/// What is sent is the history with its calls and results matched, behind its own system
/// message or the prompt; where that is over the limit, it is trimmed, and what is left is
/// matched again.
pub proof fn windows_are_matched_behind_a_prompt(history: Seq<MessageView>, now: u64)
    ensures
        ({
            let clean = sanitized(history);
            let own = clean.len() > 0 && clean[0].role == MessageRole::System;
            let prompt = MessageView {
                role: MessageRole::System,
                content: SYSTEM_PROMPT@,
                created_at_ms: now,
                tool_calls: None,
                tool_call_id: None,
            };
            let full = if own {
                clean
            } else {
                seq![prompt] + clean
            };
            &&& total_tokens(full) <= 50_000 ==> window(history, now) == full
            &&& total_tokens(full) > 50_000 ==> window(history, now) == sanitized(trimmed(full))
        }),
{
}

/// A history that begins with the prompt stays as it is; before another the prompt is put,
/// as a system message of the time.
pub proof fn prompts_come_first(history: Seq<MessageView>, now: u64)
    ensures
        history.len() > 0 && history[0].content == SYSTEM_PROMPT@ ==> with_prompt(history, now)
            == history,
        history.len() == 0 || history[0].content != SYSTEM_PROMPT@ ==> with_prompt(history, now)
            == seq![
            MessageView {
                role: MessageRole::System,
                content: SYSTEM_PROMPT@,
                created_at_ms: now,
                tool_calls: None,
                tool_call_id: None,
            },
        ] + history,
{
}

} // verus!
