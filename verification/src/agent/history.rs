//! Making a conversation history valid for the model: every tool result follows
//! the call it answers, and every call is answered.
use vstd::multiset::Multiset;
use vstd::prelude::*;
use crate::message::{
    lemma_message_views_push, message_views, Message, MessageRole, MessageView, ToolCall,
    ToolCallView,
};
use crate::text::views;

verus! {

broadcast use vstd::seq_lib::group_to_multiset_ensures;

/// The ids of a list of tool calls.
pub open spec fn call_ids(calls: Seq<ToolCallView>) -> Seq<Seq<char>> {
    Seq::new(calls.len(), |i: int| calls[i].id)
}

/// Whether a message is the result of a tool call.
pub open spec fn is_result(m: MessageView) -> bool {
    m.role == MessageRole::Tool && m.tool_call_id is Some
}

/// Reads the results of the calls `pending` from the front of `rest`.
///
/// Gives the result messages and what follows the last of them. Tool messages
/// without an id are passed over. There is no such reading where another message,
/// a result of a call that is not pending, or the end comes first.
pub open spec fn take_results(
    rest: Seq<MessageView>,
    pending: Multiset<Seq<char>>,
) -> Option<(Seq<MessageView>, Seq<MessageView>)>
    decreases rest.len(),
{
    if pending.len() == 0 {
        Some((Seq::empty(), rest))
    } else if rest.len() == 0 || rest[0].role != MessageRole::Tool {
        None
    } else {
        match rest[0].tool_call_id {
            None => take_results(rest.drop_first(), pending),
            Some(id) => if pending.contains(id) {
                prepend(seq![rest[0]], take_results(rest.drop_first(), pending.remove(id)))
            } else {
                None
            },
        }
    }
}

/// A reading with more messages before its results.
pub open spec fn prepend(
    front: Seq<MessageView>,
    reading: Option<(Seq<MessageView>, Seq<MessageView>)>,
) -> Option<(Seq<MessageView>, Seq<MessageView>)> {
    match reading {
        Some((kept, after)) => Some((front + kept, after)),
        None => None,
    }
}

proof fn lemma_take_results_len(rest: Seq<MessageView>, pending: Multiset<Seq<char>>)
    ensures
        match take_results(rest, pending) {
            Some((kept, after)) => after.len() + kept.len() <= rest.len(),
            None => true,
        },
    decreases rest.len(),
{
    if pending.len() > 0 && rest.len() > 0 && rest[0].role == MessageRole::Tool {
        match rest[0].tool_call_id {
            None => lemma_take_results_len(rest.drop_first(), pending),
            Some(id) => lemma_take_results_len(rest.drop_first(), pending.remove(id)),
        }
    }
}

/// The history without the messages that a model would reject: a message with tool
/// calls is kept only with the results of all of them right behind it, and a result
/// only behind its call.
pub open spec fn sanitized(messages: Seq<MessageView>) -> Seq<MessageView>
    decreases messages.len(),
    via sanitized_decreases
{
    if messages.len() == 0 {
        Seq::empty()
    } else {
        let m = messages[0];
        let rest = messages.drop_first();
        match m.tool_calls {
            Some(calls) => if calls.len() == 0 {
                seq![m] + sanitized(rest)
            } else {
                match take_results(rest, call_ids(calls).to_multiset()) {
                    Some((kept, after)) => seq![m] + kept + sanitized(after),
                    None => sanitized(rest),
                }
            },
            None => if is_result(m) {
                sanitized(rest)
            } else {
                seq![m] + sanitized(rest)
            },
        }
    }
}

#[via_fn]
proof fn sanitized_decreases(messages: Seq<MessageView>) {
    if messages.len() > 0 {
        match messages[0].tool_calls {
            Some(calls) => lemma_take_results_len(
                messages.drop_first(),
                call_ids(calls).to_multiset(),
            ),
            None => {},
        }
    }
}

// ---------------------------------------------------------------------------
// Executable code
// ---------------------------------------------------------------------------

/// The position of `id` in `pending`.
fn position(pending: &Vec<String>, id: &String) -> (r: Option<usize>)
    ensures
        match r {
            Some(i) => i < pending@.len() && views(pending@)[i as int] == id@,
            None => !views(pending@).contains(id@),
        },
{
    let mut i: usize = 0;
    while i < pending.len()
        invariant
            i <= pending@.len(),
            forall|k: int| 0 <= k < i ==> views(pending@)[k] != id@,
        decreases pending.len() - i,
    {
        if pending[i] == *id {
            return Some(i);
        }
        i += 1;
    }
    None
}

/// The ids of the calls of a message.
fn collect_ids(calls: &Vec<ToolCall>) -> (r: Vec<String>)
    ensures
        views(r@) == call_ids(crate::message::call_views(calls@)),
{
    let mut r: Vec<String> = Vec::new();
    let mut i: usize = 0;
    let ghost all = call_ids(crate::message::call_views(calls@));
    while i < calls.len()
        invariant
            i <= calls@.len(),
            all == call_ids(crate::message::call_views(calls@)),
            views(r@) == all.take(i as int),
        decreases calls.len() - i,
    {
        let id = calls[i].id.clone();
        proof {
            crate::text::lemma_views_push(r@, id);
            assert(all.take(i + 1) =~= all.take(i as int).push(calls@[i as int].id@));
        }
        r.push(id);
        i += 1;
    }
    proof {
        assert(all.take(calls@.len() as int) =~= all);
    }
    r
}

/// Reads the results of `calls` from `messages[from..]`: the results, and where they end.
fn scan_results(messages: &Vec<Message>, from: usize, calls: &Vec<ToolCall>) -> (r: Option<
    (Vec<Message>, usize),
>)
    requires
        from <= messages@.len(),
    ensures
        ({
            let all = message_views(messages@);
            let pending = call_ids(crate::message::call_views(calls@)).to_multiset();
            match r {
                Some((kept, end)) => {
                    &&& from <= end <= messages@.len()
                    &&& take_results(all.skip(from as int), pending) == Some(
                        (message_views(kept@), all.skip(end as int)),
                    )
                },
                None => take_results(all.skip(from as int), pending) is None,
            }
        }),
{
    let mut pending = collect_ids(calls);
    let mut kept: Vec<Message> = Vec::new();
    let mut j: usize = from;
    let ghost all = message_views(messages@);
    let ghost goal = take_results(all.skip(from as int), views(pending@).to_multiset());
    proof {
        assert(message_views(kept@) =~= Seq::empty());
        match goal {
            Some((k, a)) => {
                assert(Seq::<MessageView>::empty() + k =~= k);
            },
            None => {},
        }
    }
    while j < messages.len() && pending.len() > 0
        invariant
            from <= j <= messages@.len(),
            all == message_views(messages@),
            goal == take_results(
                all.skip(from as int),
                call_ids(crate::message::call_views(calls@)).to_multiset(),
            ),
            goal == prepend(
                message_views(kept@),
                take_results(all.skip(j as int), views(pending@).to_multiset()),
            ),
        decreases messages.len() - j,
    {
        let next = &messages[j];
        let ghost rest = all.skip(j as int);
        let ghost before = message_views(kept@);
        proof {
            assert(rest[0] == next@);
            assert(rest.drop_first() =~= all.skip(j + 1));
            assert(views(pending@).to_multiset().len() == views(pending@).len());
        }
        if next.role != MessageRole::Tool {
            return None;
        }
        match &next.tool_call_id {
            Some(id) => {
                match position(&pending, id) {
                    Some(pos) => {
                        let m = next.clone();
                        proof {
                            let p = views(pending@);
                            assert(views(pending@.remove(pos as int)) =~= p.remove(pos as int));
                            assert(p.contains(p[pos as int]));
                            assert(p.remove(pos as int).to_multiset() =~= p.to_multiset().remove(
                                id@,
                            ));
                            lemma_message_views_push(kept@, m);
                            match take_results(
                                all.skip(j + 1),
                                p.remove(pos as int).to_multiset(),
                            ) {
                                Some((k, a)) => {
                                    assert(before + (seq![m@] + k) =~= before.push(m@) + k);
                                },
                                None => {},
                            }
                        }
                        kept.push(m);
                        pending.remove(pos);
                    },
                    None => {
                        return None;
                    },
                }
            },
            None => {},
        }
        j += 1;
    }
    proof {
        assert(views(pending@).to_multiset().len() == views(pending@).len());
    }
    if pending.len() == 0 {
        proof {
            assert(message_views(kept@) + Seq::<MessageView>::empty() =~= message_views(kept@));
        }
        Some((kept, j))
    } else {
        None
    }
}

/// Drops tool calls that are not answered and tool results that answer nothing.
pub fn sanitize_messages(messages: &Vec<Message>) -> (clean: Vec<Message>)
    ensures
        message_views(clean@) == sanitized(message_views(messages@)),
{
    let mut clean: Vec<Message> = Vec::new();
    let mut i: usize = 0;
    let ghost all = message_views(messages@);
    proof {
        assert(all.skip(0) =~= all);
        assert(message_views(clean@) + sanitized(all) =~= sanitized(all));
    }
    while i < messages.len()
        invariant
            i <= messages@.len(),
            all == message_views(messages@),
            message_views(clean@) + sanitized(all.skip(i as int)) == sanitized(all),
        decreases messages.len() - i,
    {
        let msg = &messages[i];
        let ghost before = message_views(clean@);
        let ghost rest = all.skip(i + 1);
        proof {
            assert(all.skip(i as int)[0] == msg@);
            assert(all.skip(i as int).drop_first() =~= rest);
            assert(before + (seq![msg@] + sanitized(rest)) =~= before.push(msg@) + sanitized(rest));
        }
        match &msg.tool_calls {
            Some(calls) => {
                if calls.len() == 0 {
                    let m = msg.clone();
                    proof {
                        lemma_message_views_push(clean@, m);
                    }
                    clean.push(m);
                    i += 1;
                } else {
                    match scan_results(messages, i + 1, calls) {
                        Some((kept, end)) => {
                            let mut kept = kept;
                            let m = msg.clone();
                            proof {
                                lemma_message_views_push(clean@, m);
                                let k = message_views(kept@);
                                let tail = sanitized(all.skip(end as int));
                                assert(before + (seq![m@] + k + tail) =~= before.push(m@) + k
                                    + tail);
                                assert(message_views(clean@.push(m) + kept@) =~= before.push(m@)
                                    + k);
                            }
                            clean.push(m);
                            clean.append(&mut kept);
                            i = end;
                        },
                        None => {
                            i += 1;
                        },
                    }
                }
            },
            None => {
                if !(msg.role == MessageRole::Tool && msg.tool_call_id.is_some()) {
                    let m = msg.clone();
                    proof {
                        lemma_message_views_push(clean@, m);
                    }
                    clean.push(m);
                }
                i += 1;
            },
        }
    }
    proof {
        assert(message_views(clean@) + sanitized(all.skip(i as int)) =~= message_views(clean@));
    }
    clean
}

} // verus!
