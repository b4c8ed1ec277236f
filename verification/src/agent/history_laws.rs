//! What holds of every sanitized history.
use vstd::multiset::Multiset;
use vstd::prelude::*;
use crate::agent::history::{call_ids, is_result, prepend, sanitized, take_results};
use crate::message::{MessageRole, MessageView, ToolCallView};

verus! {

broadcast use vstd::seq_lib::group_to_multiset_ensures;

/// The ids that a list of results answer.
pub open spec fn answered_ids(results: Seq<MessageView>) -> Seq<Seq<char>> {
    Seq::new(results.len(), |i: int| results[i].tool_call_id->0)
}

/// Whether the message at `k` is among those right behind a message, one for each of its
/// calls, that asks for the call `id`.
pub open spec fn asked_right_before(messages: Seq<MessageView>, k: int, id: Seq<char>) -> bool {
    exists|p: int|
        0 <= p < k && #[trigger] messages[p].tool_calls is Some && k <= p
            + messages[p].tool_calls->0.len() && call_ids(messages[p].tool_calls->0).contains(id)
}

/// Whether every tool result stands right behind the message that asks for it.
pub open spec fn no_orphan_results(messages: Seq<MessageView>) -> bool {
    forall|k: int|
        0 <= k < messages.len() && is_result(#[trigger] messages[k]) ==> asked_right_before(
            messages,
            k,
            messages[k].tool_call_id->0,
        )
}

/// Whether the message at `k` has no call, or the results of its calls right behind it.
pub open spec fn answered_at(messages: Seq<MessageView>, k: int) -> bool {
    match messages[k].tool_calls {
        Some(calls) => {
            &&& k + calls.len() < messages.len()
            &&& forall|j: int| k < j <= k + calls.len() ==> is_result(#[trigger] messages[j])
            &&& answered_ids(messages.subrange(k + 1, k + 1 + calls.len())).to_multiset()
                == call_ids(calls).to_multiset()
        },
        None => true,
    }
}

/// Whether every call is answered, and by nothing but the messages right behind it.
pub open spec fn all_calls_answered(messages: Seq<MessageView>) -> bool {
    forall|k: int| 0 <= k < messages.len() ==> #[trigger] answered_at(messages, k)
}

/// Whether no tool result carries tool calls of its own.
pub open spec fn results_carry_no_calls(messages: Seq<MessageView>) -> bool {
    forall|k: int|
        0 <= k < messages.len() && is_result(#[trigger] messages[k]) ==> messages[k].tool_calls
            is None
}

/// Whether `out` holds the messages of `messages` at the positions `at`, in their order.
pub open spec fn picked(
    messages: Seq<MessageView>,
    at: Seq<int>,
    out: Seq<MessageView>,
) -> bool {
    &&& at.len() == out.len()
    &&& forall|k: int| 0 <= k < at.len() ==> 0 <= #[trigger] at[k] < messages.len()
    &&& forall|k: int| 0 <= k < at.len() ==> out[k] == messages[#[trigger] at[k]]
    &&& forall|k: int, l: int| 0 <= k < l < at.len() ==> at[k] < at[l]
}

/// Whether `out` comes from `messages` by leaving messages out.
pub open spec fn is_selection(messages: Seq<MessageView>, out: Seq<MessageView>) -> bool {
    exists|at: Seq<int>| picked(messages, at, out)
}

/// Whether a message neither asks for a call nor comes from a tool.
pub open spec fn is_plain(m: MessageView) -> bool {
    m.role != MessageRole::Tool && (m.tool_calls is None || m.tool_calls->0.len() == 0)
}

/// Whether the positions `at` hold that of every plain message.
pub open spec fn holds_plain(messages: Seq<MessageView>, at: Seq<int>) -> bool {
    forall|k: int| 0 <= k < messages.len() && is_plain(#[trigger] messages[k]) ==> at.contains(k)
}

/// Whether `block` is one completed round: a message with calls, then their results in order.
pub open spec fn is_round(block: Seq<MessageView>, calls: Seq<ToolCallView>) -> bool {
    &&& block.len() == 1 + calls.len()
    &&& block[0].tool_calls == Some(calls)
    &&& forall|i: int|
        0 <= i < calls.len() ==> is_result(#[trigger] block[1 + i]) && block[1 + i].tool_call_id
            == Some(calls[i].id)
}

proof fn lemma_kept(rest: Seq<MessageView>, pending: Multiset<Seq<char>>)
    requires
        take_results(rest, pending) is Some,
    ensures
        ({
            let (kept, after) = take_results(rest, pending)->0;
            &&& kept.len() == pending.len()
            &&& forall|i: int| 0 <= i < kept.len() ==> is_result(#[trigger] kept[i])
            &&& answered_ids(kept).to_multiset() =~= pending
        }),
    decreases rest.len(),
{
    let (kept, after) = take_results(rest, pending)->0;
    if pending.len() == 0 {
        assert(answered_ids(kept) =~= Seq::empty());
        assert(pending =~= Multiset::empty()) by {
            vstd::multiset::lemma_multiset_empty_len(pending);
        }
    } else {
        match rest[0].tool_call_id {
            None => {
                lemma_kept(rest.drop_first(), pending);
            },
            Some(id) => {
                lemma_kept(rest.drop_first(), pending.remove(id));
                let (k, a) = take_results(rest.drop_first(), pending.remove(id))->0;
                assert(kept =~= seq![rest[0]] + k);
                assert(answered_ids(kept) =~= seq![id] + answered_ids(k));
                assert(seq![id] + answered_ids(k) =~= answered_ids(k).insert(0, id));
                vstd::seq_lib::to_multiset_insert(answered_ids(k), 0, id);
                assert(answered_ids(kept).to_multiset() =~= answered_ids(k).to_multiset().insert(
                    id,
                ));
                assert(pending.remove(id).insert(id) =~= pending);
            },
        }
    }
}

/// A reading does not depend on what follows, where that does not begin with a tool message.
proof fn lemma_take_results_append(
    rest: Seq<MessageView>,
    tail: Seq<MessageView>,
    pending: Multiset<Seq<char>>,
)
    requires
        tail.len() == 0 || tail[0].role != MessageRole::Tool,
    ensures
        take_results(rest + tail, pending) == (match take_results(rest, pending) {
            Some((kept, after)) => Some((kept, after + tail)),
            None => None::<(Seq<MessageView>, Seq<MessageView>)>,
        }),
    decreases rest.len(),
{
    if pending.len() > 0 {
        if rest.len() == 0 {
            assert(rest + tail =~= tail);
        } else {
            assert((rest + tail).drop_first() =~= rest.drop_first() + tail);
            match rest[0].tool_call_id {
                None => lemma_take_results_append(rest.drop_first(), tail, pending),
                Some(id) => lemma_take_results_append(rest.drop_first(), tail, pending.remove(id)),
            }
        }
    }
}

/// The results that were kept are read again, whatever follows them.
proof fn lemma_kept_again(
    rest: Seq<MessageView>,
    pending: Multiset<Seq<char>>,
    tail: Seq<MessageView>,
)
    requires
        take_results(rest, pending) is Some,
    ensures
        take_results((take_results(rest, pending)->0).0 + tail, pending) == Some(
            ((take_results(rest, pending)->0).0, tail),
        ),
    decreases rest.len(),
{
    let (kept, after) = take_results(rest, pending)->0;
    if pending.len() == 0 {
        assert(kept + tail =~= tail);
    } else {
        match rest[0].tool_call_id {
            None => lemma_kept_again(rest.drop_first(), pending, tail),
            Some(id) => {
                lemma_kept_again(rest.drop_first(), pending.remove(id), tail);
                let (k, a) = take_results(rest.drop_first(), pending.remove(id))->0;
                assert((kept + tail).drop_first() =~= k + tail);
                assert((kept + tail)[0] == rest[0]);
            },
        }
    }
}

/// Sanitizing twice is sanitizing once.
pub proof fn sanitize_is_idempotent(messages: Seq<MessageView>)
    ensures
        sanitized(sanitized(messages)) == sanitized(messages),
    decreases messages.len(),
{
    if messages.len() > 0 {
        let m = messages[0];
        let rest = messages.drop_first();
        match m.tool_calls {
            Some(calls) if calls.len() > 0 => {
                let pending = call_ids(calls).to_multiset();
                match take_results(rest, pending) {
                    Some((kept, after)) => {
                        lemma_after_is_suffix(rest, pending);
                        sanitize_is_idempotent(after);
                        let tail = sanitized(after);
                        lemma_kept_again(rest, pending, tail);
                        let out = seq![m] + kept + tail;
                        assert(out.drop_first() =~= kept + tail);
                        assert(out[0] == m);
                    },
                    None => {
                        sanitize_is_idempotent(rest);
                    },
                }
            },
            _ => {
                sanitize_is_idempotent(rest);
                let out = seq![m] + sanitized(rest);
                assert(out.drop_first() =~= sanitized(rest));
                assert(out[0] == m);
            },
        }
    }
}

/// What follows the results is a suffix, and the results are picked from before it.
proof fn lemma_after_is_suffix(rest: Seq<MessageView>, pending: Multiset<Seq<char>>) -> (at: Seq<
    int,
>)
    requires
        take_results(rest, pending) is Some,
    ensures
        ({
            let (kept, after) = take_results(rest, pending)->0;
            let n = rest.len() - after.len();
            &&& 0 <= n
            &&& after == rest.skip(n)
            &&& picked(rest, at, kept)
            &&& forall|k: int| 0 <= k < at.len() ==> #[trigger] at[k] < n
            &&& forall|k: int| 0 <= k < n ==> (#[trigger] rest[k]).role == MessageRole::Tool
        }),
    decreases rest.len(),
{
    let (kept, after) = take_results(rest, pending)->0;
    if pending.len() == 0 {
        assert(rest.skip(0) =~= rest);
        Seq::empty()
    } else {
        let tail = rest.drop_first();
        match rest[0].tool_call_id {
            None => {
                let at = lemma_after_is_suffix(tail, pending);
                assert(tail.skip(tail.len() - after.len()) =~= rest.skip(
                    rest.len() - after.len(),
                ));
                let shifted = Seq::new(at.len(), |k: int| at[k] + 1);
                assert(forall|k: int| 0 <= k < at.len() ==> tail[#[trigger] at[k]] == rest[at[k] + 1]);
                assert(forall|k: int| 0 <= k < at.len() ==> #[trigger] shifted[k] == at[k] + 1);
                assert(forall|k: int| 0 < k < rest.len() ==> #[trigger] rest[k] == tail[k - 1]);
                shifted
            },
            Some(id) => {
                let at = lemma_after_is_suffix(tail, pending.remove(id));
                let k0 = (take_results(tail, pending.remove(id))->0).0;
                assert(tail.skip(tail.len() - after.len()) =~= rest.skip(
                    rest.len() - after.len(),
                ));
                let shifted = seq![0int] + Seq::new(at.len(), |k: int| at[k] + 1);
                assert forall|k: int| 0 <= k < shifted.len() implies 0 <= #[trigger] shifted[k]
                    < rest.len() && shifted[k] < rest.len() - after.len() && kept[k]
                    == rest[shifted[k]] by {
                    if k > 0 {
                        assert(at[k - 1] + 1 == shifted[k]);
                        assert(kept[k] == k0[k - 1]);
                    }
                }
                assert forall|k: int, l: int| 0 <= k < l < shifted.len() implies shifted[k]
                    < shifted[l] by {
                    assert(at[l - 1] + 1 == shifted[l]);
                    if k > 0 {
                        assert(at[k - 1] + 1 == shifted[k]);
                    }
                }
                assert(forall|k: int| 0 < k < rest.len() ==> #[trigger] rest[k] == tail[k - 1]);
                shifted
            },
        }
    }
}

/// Sanitizing only leaves messages out: it adds, changes and moves none.
pub proof fn sanitize_only_leaves_out(messages: Seq<MessageView>)
    ensures
        is_selection(messages, sanitized(messages)),
{
    let at = lemma_sanitized_picked(messages);
}

/// Sanitizing leaves out no plain message, wherever it stands.
pub proof fn sanitize_keeps_plain_messages(messages: Seq<MessageView>)
    ensures
        exists|at: Seq<int>|
            #[trigger] picked(messages, at, sanitized(messages)) && holds_plain(messages, at),
{
    let at = lemma_sanitized_picked(messages);
}

proof fn lemma_sanitized_picked(messages: Seq<MessageView>) -> (at: Seq<int>)
    ensures
        picked(messages, at, sanitized(messages)),
        holds_plain(messages, at),
    decreases messages.len(),
{
    if messages.len() == 0 {
        Seq::empty()
    } else {
        let m = messages[0];
        let rest = messages.drop_first();
        match m.tool_calls {
            Some(calls) if calls.len() > 0 => {
                let pending = call_ids(calls).to_multiset();
                match take_results(rest, pending) {
                    Some((kept, after)) => {
                        let first = lemma_after_is_suffix(rest, pending);
                        let later = lemma_sanitized_picked(after);
                        let n = rest.len() - after.len();
                        let at = seq![0int] + Seq::new(first.len(), |k: int| first[k] + 1)
                            + Seq::new(later.len(), |k: int| later[k] + 1 + n);
                        let out = sanitized(messages);
                        assert(out =~= seq![m] + kept + sanitized(after));
                        assert forall|k: int| 0 <= k < at.len() implies 0 <= #[trigger] at[k]
                            < messages.len() && out[k] == messages[at[k]] by {
                            if 0 < k <= first.len() {
                                assert(at[k] == first[k - 1] + 1);
                            } else if k > 0 {
                                assert(at[k] == later[k - 1 - first.len()] + 1 + n);
                            }
                        }
                        assert forall|k: int, l: int| 0 <= k < l < at.len() implies at[k]
                            < at[l] by {
                            if 0 < l <= first.len() {
                                assert(at[l] == first[l - 1] + 1);
                            } else {
                                assert(at[l] == later[l - 1 - first.len()] + 1 + n);
                            }
                            if 0 < k <= first.len() {
                                assert(at[k] == first[k - 1] + 1);
                            } else if k > 0 {
                                assert(at[k] == later[k - 1 - first.len()] + 1 + n);
                            }
                        }
                        assert forall|k: int|
                            0 <= k < messages.len() && is_plain(#[trigger] messages[k]) implies
                            at.contains(k) by {
                            if k > 0 {
                                assert(messages[k] == rest[k - 1]);
                                assert(k - 1 >= n);
                                assert(after[k - 1 - n] == messages[k]);
                                assert(later.contains(k - 1 - n));
                                let l = choose|l: int|
                                    0 <= l < later.len() && later[l] == k - 1 - n;
                                assert(at[1 + first.len() + l] == k);
                            }
                        }
                        at
                    },
                    None => {
                        let later = lemma_sanitized_picked(rest);
                        lemma_shift_picked(messages, later, false)
                    },
                }
            },
            Some(calls) => {
                let later = lemma_sanitized_picked(rest);
                lemma_shift_picked(messages, later, true)
            },
            None => {
                let later = lemma_sanitized_picked(rest);
                lemma_shift_picked(messages, later, !is_result(m))
            },
        }
    }
}

/// Positions in the tail are positions in the whole, one further; with `first` the head is
/// picked too.
proof fn lemma_shift_picked(messages: Seq<MessageView>, at: Seq<int>, first: bool) -> (r: Seq<int>)
    requires
        messages.len() > 0,
        picked(messages.drop_first(), at, sanitized(messages.drop_first())),
        holds_plain(messages.drop_first(), at),
        !first ==> !is_plain(messages[0]),
    ensures
        holds_plain(messages, r),
        first ==> picked(messages, r, seq![messages[0]] + sanitized(messages.drop_first())),
        !first ==> picked(messages, r, sanitized(messages.drop_first())),
{
    let tail = sanitized(messages.drop_first());
    let shifted = Seq::new(at.len(), |k: int| at[k] + 1);
    assert forall|k: int| 0 <= k < shifted.len() implies 0 <= #[trigger] shifted[k]
        < messages.len() && tail[k] == messages[shifted[k]] by {
        assert(shifted[k] == at[k] + 1);
    }
    assert forall|k: int, l: int| 0 <= k < l < shifted.len() implies shifted[k] < shifted[l] by {
        assert(shifted[k] == at[k] + 1 && shifted[l] == at[l] + 1);
    }
    assert forall|k: int| 0 < k < messages.len() && is_plain(#[trigger] messages[k]) implies
        shifted.contains(k) by {
        assert(messages.drop_first()[k - 1] == messages[k]);
        assert(at.contains(k - 1));
        let l = choose|l: int| 0 <= l < at.len() && at[l] == k - 1;
        assert(shifted[l] == k);
    }
    if first {
        let r = seq![0int] + shifted;
        assert forall|k: int| 0 <= k < messages.len() && is_plain(#[trigger] messages[k]) implies
            r.contains(k) by {
            if k == 0 {
                assert(r[0] == 0);
            } else {
                let l = choose|l: int| 0 <= l < shifted.len() && shifted[l] == k;
                assert(r[l + 1] == k);
            }
        }
        let out = seq![messages[0]] + tail;
        assert forall|k: int| 0 <= k < r.len() implies 0 <= #[trigger] r[k] < messages.len()
            && out[k] == messages[r[k]] by {
            if k > 0 {
                assert(r[k] == shifted[k - 1]);
            }
        }
        assert forall|k: int, l: int| 0 <= k < l < r.len() implies r[k] < r[l] by {
            assert(r[l] == shifted[l - 1]);
            if k > 0 {
                assert(r[k] == shifted[k - 1]);
            }
        }
        r
    } else {
        shifted
    }
}

proof fn lemma_tail_carries_no_calls(messages: Seq<MessageView>, n: int)
    requires
        results_carry_no_calls(messages),
        0 <= n <= messages.len(),
    ensures
        results_carry_no_calls(messages.skip(n)),
{
    let rest = messages.skip(n);
    assert forall|k: int| 0 <= k < rest.len() && is_result(#[trigger] rest[k]) implies
        rest[k].tool_calls is None by {
        assert(rest[k] == messages[n + k]);
    }
}

/// Right behind every call that is left stand its results, just one for each of its ids, and
/// no other result is left. The one thing asked of the history is that a
/// tool result carries no tool calls itself.
pub proof fn sanitize_matches_calls_and_results(messages: Seq<MessageView>)
    requires
        results_carry_no_calls(messages),
    ensures
        no_orphan_results(sanitized(messages)),
        all_calls_answered(sanitized(messages)),
    decreases messages.len(),
{
    let out = sanitized(messages);
    if messages.len() > 0 {
        let m = messages[0];
        let rest = messages.drop_first();
        assert(rest =~= messages.skip(1));
        lemma_tail_carries_no_calls(messages, 1);
        match m.tool_calls {
            Some(calls) if calls.len() > 0 => {
                let pending = call_ids(calls).to_multiset();
                match take_results(rest, pending) {
                    Some((kept, after)) => {
                        let at = lemma_after_is_suffix(rest, pending);
                        lemma_kept(rest, pending);
                        lemma_tail_carries_no_calls(rest, rest.len() - after.len());
                        sanitize_matches_calls_and_results(after);
                        let tail = sanitized(after);
                        assert(out =~= seq![m] + kept + tail);
                        let n = 1 + kept.len();
                        assert(pending.len() == calls.len());
                        assert forall|k: int| 0 <= k < out.len() && is_result(#[trigger] out[k])
                            implies asked_right_before(out, k, out[k].tool_call_id->0) by {
                            if k == 0 {
                                assert(messages[0].tool_calls is None);
                            } else if k < n {
                                let ids = answered_ids(kept);
                                assert(ids[k - 1] == out[k].tool_call_id->0);
                                assert(ids.contains(ids[k - 1]));
                                assert(ids.to_multiset().contains(ids[k - 1]));
                                assert(call_ids(calls).contains(ids[k - 1]));
                                assert(out[0].tool_calls == Some(calls));
                            } else {
                                assert(out[k] == tail[k - n]);
                                assert(asked_right_before(tail, k - n, tail[k - n].tool_call_id->0));
                                let p = choose|p: int|
                                    0 <= p < k - n && #[trigger] tail[p].tool_calls is Some
                                        && k - n <= p + tail[p].tool_calls->0.len()
                                        && call_ids(tail[p].tool_calls->0).contains(
                                        tail[k - n].tool_call_id->0,
                                    );
                                assert(out[p + n] == tail[p]);
                            }
                        }
                        assert forall|k: int| 0 <= k < out.len() implies #[trigger] answered_at(
                            out,
                            k,
                        ) by {
                            if k == 0 {
                                assert(out.subrange(1, 1 + calls.len() as int) =~= kept);
                                assert forall|j: int| 0 < j <= calls.len() implies is_result(
                                    #[trigger] out[j],
                                ) by {
                                    assert(out[j] == kept[j - 1]);
                                }
                            } else if k < n {
                                assert(out[k] == kept[k - 1]);
                                assert(kept[k - 1] == rest[at[k - 1]]);
                                assert(is_result(kept[k - 1]));
                                assert(rest[at[k - 1]] == messages[at[k - 1] + 1]);
                                assert(messages[at[k - 1] + 1].tool_calls is None);
                            } else {
                                assert(out.skip(n as int) =~= tail);
                                lemma_answered_shift(out, tail, n as int, k);
                            }
                        }
                    },
                    None => {
                        sanitize_matches_calls_and_results(rest);
                    },
                }
            },
            _ => {
                sanitize_matches_calls_and_results(rest);
                let tail = sanitized(rest);
                if !(m.tool_calls is None && is_result(m)) {
                    assert(out =~= seq![m] + tail);
                    assert forall|k: int| 0 <= k < out.len() && is_result(#[trigger] out[k])
                        implies asked_right_before(out, k, out[k].tool_call_id->0) by {
                        if k > 0 {
                            assert(out[k] == tail[k - 1]);
                            assert(asked_right_before(tail, k - 1, tail[k - 1].tool_call_id->0));
                            let p = choose|p: int|
                                0 <= p < k - 1 && #[trigger] tail[p].tool_calls is Some
                                    && k - 1 <= p + tail[p].tool_calls->0.len()
                                    && call_ids(tail[p].tool_calls->0).contains(
                                    tail[k - 1].tool_call_id->0,
                                );
                            assert(out[p + 1] == tail[p]);
                        } else {
                            assert(messages[0].tool_calls is None);
                        }
                    }
                    assert forall|k: int| 0 <= k < out.len() implies #[trigger] answered_at(
                        out,
                        k,
                    ) by {
                        if k > 0 {
                            assert(out.skip(1) =~= tail);
                            lemma_answered_shift(out, tail, 1, k);
                        } else if m.tool_calls is Some {
                            let calls = m.tool_calls->0;
                            assert(answered_ids(out.subrange(1, 1)) =~= call_ids(calls));
                        }
                    }
                }
            },
        }
    }
}

/// A call that is answered in a tail is answered in the whole.
pub proof fn lemma_answered_shift(out: Seq<MessageView>, tail: Seq<MessageView>, n: int, k: int)
    requires
        0 <= n <= k < out.len(),
        out.skip(n) == tail,
        answered_at(tail, k - n),
    ensures
        answered_at(out, k),
{
    assert(out[k] == tail[k - n]);
    match out[k].tool_calls {
        Some(calls) => {
            assert forall|j: int| k < j <= k + calls.len() implies is_result(#[trigger] out[j]) by {
                assert(out[j] == tail[j - n]);
            }
            assert(out.subrange(k + 1, k + 1 + calls.len()) =~= tail.subrange(
                k - n + 1,
                k - n + 1 + calls.len(),
            ));
        },
        None => {},
    }
}

/// What is appended is sanitized on its own, unless it begins with a tool message.
pub proof fn sanitize_distributes_over_append(h: Seq<MessageView>, t: Seq<MessageView>)
    requires
        t.len() == 0 || t[0].role != MessageRole::Tool,
    ensures
        sanitized(h + t) == sanitized(h) + sanitized(t),
    decreases h.len(),
{
    if h.len() == 0 {
        assert(h + t =~= t);
        assert(sanitized(h) + sanitized(t) =~= sanitized(t));
    } else {
        let m = h[0];
        let rest = h.drop_first();
        assert((h + t).drop_first() =~= rest + t);
        assert((h + t)[0] == m);
        match m.tool_calls {
            Some(calls) if calls.len() > 0 => {
                let pending = call_ids(calls).to_multiset();
                lemma_take_results_append(rest, t, pending);
                match take_results(rest, pending) {
                    Some((kept, after)) => {
                        let at = lemma_after_is_suffix(rest, pending);
                        sanitize_distributes_over_append(after, t);
                        assert(seq![m] + kept + (sanitized(after) + sanitized(t)) =~= seq![m] + kept
                            + sanitized(after) + sanitized(t));
                    },
                    None => {
                        sanitize_distributes_over_append(rest, t);
                    },
                }
            },
            _ => {
                sanitize_distributes_over_append(rest, t);
                assert(seq![m] + (sanitized(rest) + sanitized(t)) =~= seq![m] + sanitized(rest)
                    + sanitized(t));
            },
        }
    }
}

proof fn lemma_results_in_order(results: Seq<MessageView>, ids: Seq<Seq<char>>)
    requires
        results.len() == ids.len(),
        forall|i: int|
            0 <= i < ids.len() ==> is_result(#[trigger] results[i]) && results[i].tool_call_id
                == Some(ids[i]),
    ensures
        take_results(results, ids.to_multiset()) == Some((results, Seq::<MessageView>::empty())),
    decreases results.len(),
{
    if ids.len() == 0 {
        assert(results =~= Seq::<MessageView>::empty());
    } else {
        let id = ids[0];
        let r = results.drop_first();
        let i2 = ids.drop_first();
        assert(is_result(results[0]));
        assert forall|i: int| 0 <= i < i2.len() implies is_result(#[trigger] r[i])
            && r[i].tool_call_id == Some(i2[i]) by {
            assert(r[i] == results[i + 1]);
        }
        lemma_results_in_order(r, i2);
        assert(ids.contains(id));
        assert(ids.remove(0) =~= i2);
        assert(ids.to_multiset().remove(id) =~= i2.to_multiset());
        assert(seq![results[0]] + r =~= results);
        assert(ids.to_multiset().len() > 0);
        assert(take_results(results, ids.to_multiset()) == prepend(
            seq![results[0]],
            take_results(r, i2.to_multiset()),
        ));
    }
}

/// A completed round at the end of a history is kept whole: the message with the
/// calls and every result, whatever came before.
pub proof fn completed_round_is_kept(
    h: Seq<MessageView>,
    block: Seq<MessageView>,
    calls: Seq<ToolCallView>,
)
    requires
        is_round(block, calls),
        block[0].role != MessageRole::Tool,
    ensures
        sanitized(h + block) == sanitized(h) + block,
{
    sanitize_distributes_over_append(h, block);
    let results = block.drop_first();
    let ids = call_ids(calls);
    assert forall|i: int| 0 <= i < ids.len() implies is_result(#[trigger] results[i])
        && results[i].tool_call_id == Some(ids[i]) by {
        assert(results[i] == block[1 + i]);
    }
    lemma_results_in_order(results, ids);
    let none = Seq::<MessageView>::empty();
    assert(sanitized(none) =~= none);
    if calls.len() == 0 {
        assert(results =~= none);
        assert(seq![block[0]] + none =~= block);
    } else {
        assert(seq![block[0]] + results + none =~= block);
    }
}

/// A plain message at the end of a history is kept.
pub proof fn plain_message_is_kept(h: Seq<MessageView>, m: MessageView)
    requires
        m.tool_calls is None,
        m.role != MessageRole::Tool,
    ensures
        sanitized(h.push(m)) == sanitized(h).push(m),
{
    let t = seq![m];
    sanitize_distributes_over_append(h, t);
    assert(h + t =~= h.push(m));
    let none = Seq::<MessageView>::empty();
    assert(t.drop_first() =~= none);
    assert(sanitized(none) =~= none);
    assert(sanitized(t) =~= seq![m]);
    assert(sanitized(h) + t =~= sanitized(h).push(m));
}

/// Whether all messages are results.
pub open spec fn are_results(results: Seq<MessageView>) -> bool {
    forall|i: int| 0 <= i < results.len() ==> is_result(#[trigger] results[i])
}

proof fn lemma_first_answered(results: Seq<MessageView>)
    requires
        results.len() > 0,
        are_results(results),
    ensures
        ({
            let pending = answered_ids(results).to_multiset();
            let id = results[0].tool_call_id->0;
            &&& is_result(results[0])
            &&& are_results(results.drop_first())
            &&& pending.len() == results.len()
            &&& pending.contains(id)
            &&& pending.remove(id) == answered_ids(results.drop_first()).to_multiset()
        }),
{
    let ids = answered_ids(results);
    let rest = results.drop_first();
    let id = results[0].tool_call_id->0;
    assert(is_result(results[0]));
    assert forall|i: int| 0 <= i < rest.len() implies is_result(#[trigger] rest[i]) by {
        assert(rest[i] == results[i + 1]);
    }
    assert(ids[0] == id);
    assert(ids.contains(id));
    assert(answered_ids(rest) =~= ids.remove(0));
    assert(ids.to_multiset().contains(id));
    assert(ids.remove(0).to_multiset() =~= ids.to_multiset().remove(id));
}

proof fn lemma_results_in_any_order(results: Seq<MessageView>, after: Seq<MessageView>)
    requires
        are_results(results),
    ensures
        take_results(results + after, answered_ids(results).to_multiset()) == Some(
            (results, after),
        ),
    decreases results.len(),
{
    let pending = answered_ids(results).to_multiset();
    if results.len() == 0 {
        assert(results + after =~= after);
        assert(answered_ids(results) =~= Seq::<Seq<char>>::empty());
        assert(results =~= Seq::<MessageView>::empty());
    } else {
        let rest = results.drop_first();
        lemma_first_answered(results);
        lemma_results_in_any_order(rest, after);
        assert((results + after).drop_first() =~= rest + after);
        assert((results + after)[0] == results[0]);
        assert(seq![results[0]] + rest =~= results);
    }
}

/// A round is kept whole in whatever order its calls were answered, and whatever came before
/// it and comes behind it.
pub proof fn rounds_are_kept_in_any_order(
    h: Seq<MessageView>,
    m: MessageView,
    results: Seq<MessageView>,
    after: Seq<MessageView>,
)
    requires
        m.role != MessageRole::Tool,
        m.tool_calls is Some,
        m.tool_calls->0.len() > 0,
        are_results(results),
        answered_ids(results).to_multiset() == call_ids(m.tool_calls->0).to_multiset(),
    ensures
        sanitized(h + (seq![m] + results + after)) == sanitized(h) + (seq![m] + results + sanitized(
            after,
        )),
{
    let block = seq![m] + results + after;
    sanitize_distributes_over_append(h, block);
    assert(block[0] == m);
    assert(block.drop_first() =~= results + after);
    lemma_results_in_any_order(results, after);
}

/// A message of a tool that names no call does not keep a round from being complete: it is
/// passed over between the results.
pub proof fn nameless_results_are_passed_over(
    m: MessageView,
    first: Seq<MessageView>,
    nameless: MessageView,
    last: Seq<MessageView>,
    after: Seq<MessageView>,
)
    requires
        m.tool_calls is Some,
        m.tool_calls->0.len() > 0,
        are_results(first),
        are_results(last),
        last.len() > 0,
        nameless.role == MessageRole::Tool,
        nameless.tool_call_id is None,
        answered_ids(first + last).to_multiset() == call_ids(m.tool_calls->0).to_multiset(),
    ensures
        sanitized(seq![m] + (first + seq![nameless] + last + after)) == seq![m] + (first + last)
            + sanitized(after),
{
    let block = seq![m] + (first + seq![nameless] + last + after);
    assert(block[0] == m);
    assert(block.drop_first() =~= first + seq![nameless] + last + after);
    lemma_passed_over(first, nameless, last, after);
}

proof fn lemma_passed_over(
    first: Seq<MessageView>,
    nameless: MessageView,
    last: Seq<MessageView>,
    after: Seq<MessageView>,
)
    requires
        are_results(first),
        are_results(last),
        last.len() > 0,
        nameless.role == MessageRole::Tool,
        nameless.tool_call_id is None,
    ensures
        take_results(
            first + seq![nameless] + last + after,
            answered_ids(first + last).to_multiset(),
        ) == Some((first + last, after)),
    decreases first.len(),
{
    let both = first + last;
    let whole = first + seq![nameless] + last + after;
    assert forall|i: int| 0 <= i < both.len() implies is_result(#[trigger] both[i]) by {
        if i < first.len() {
            assert(both[i] == first[i]);
        } else {
            assert(both[i] == last[i - first.len()]);
        }
    }
    lemma_first_answered(both);
    if first.len() == 0 {
        assert(both =~= last);
        assert(whole[0] == nameless);
        assert(whole.drop_first() =~= last + after);
        lemma_results_in_any_order(last, after);
    } else {
        let less = first.drop_first();
        assert(both.drop_first() =~= less + last);
        assert forall|i: int| 0 <= i < less.len() implies is_result(#[trigger] less[i]) by {
            assert(less[i] == first[i + 1]);
        }
        assert(whole[0] == first[0]);
        assert(both[0] == first[0]);
        assert(whole.drop_first() =~= less + seq![nameless] + last + after);
        lemma_passed_over(less, nameless, last, after);
        assert(seq![first[0]] + (less + last) =~= both);
    }
}

/// Calls that are not answered right away are left out, and only they: where no message of a
/// tool follows, or one that answers another call, what follows is read on its own.
pub proof fn unanswered_calls_are_left_out(m: MessageView, rest: Seq<MessageView>)
    requires
        m.tool_calls is Some,
        m.tool_calls->0.len() > 0,
        rest.len() == 0 || rest[0].role != MessageRole::Tool || (rest[0].tool_call_id is Some
            && !call_ids(m.tool_calls->0).contains(rest[0].tool_call_id->0)),
    ensures
        sanitized(seq![m] + rest) == sanitized(rest),
{
    let all = seq![m] + rest;
    let ids = call_ids(m.tool_calls->0);
    assert(all[0] == m);
    assert(all.drop_first() =~= rest);
    assert(ids.to_multiset().len() == ids.len());
    if rest.len() > 0 && rest[0].role == MessageRole::Tool {
        let id = rest[0].tool_call_id->0;
        assert(ids.to_multiset().contains(id) <==> ids.contains(id));
    }
}

/// A result without its call is left out, and only it; a message of a tool that names no call
/// is kept where no round is open.
pub proof fn stray_results_are_left_out(m: MessageView, rest: Seq<MessageView>)
    requires
        m.role == MessageRole::Tool,
        m.tool_calls is None,
    ensures
        m.tool_call_id is Some ==> sanitized(seq![m] + rest) == sanitized(rest),
        m.tool_call_id is None ==> sanitized(seq![m] + rest) == seq![m] + sanitized(rest),
{
    assert((seq![m] + rest)[0] == m);
    assert((seq![m] + rest).drop_first() =~= rest);
}

} // verus!
