//! What holds of every reply that arrives in pieces.
use vstd::prelude::*;
use crate::message::ToolCallView;
use crate::provider::ProviderResponseView;
use crate::remote::response::RemoteErrorView;
use crate::remote::stream::{
    calls_of, grown, next_event, stream_response, tokens_of, with_call_delta, with_call_deltas,
    with_deltas, CallSlotView, SseCallDeltaView, SseDeltaView, SseEventView, SseStreamView,
};
use crate::text::{begins, is_space, lemma_line_len, line_len, trimmed};
use crate::text_laws::tight_texts_stay;

verus! {

// ---------------------------------------------------------------------------
// Events
// ---------------------------------------------------------------------------

proof fn lemma_line_then(line: Seq<char>, rest: Seq<char>)
    requires
        !line.contains('\n'),
    ensures
        ({
            let all = line + seq!['\n'] + rest;
            &&& line_len(all) == line.len()
            &&& all.take(line.len() as int) == line
            &&& all.skip(line.len() as int + 1) == rest
        }),
{
    let all = line + seq!['\n'] + rest;
    let n = line.len() as int;
    lemma_line_len(all);
    let k = line_len(all) as int;
    assert(all[n] == '\n');
    if k < n {
        assert(all[k] == line[k]);
        assert(line.contains(line[k]));
    }
    assert(all.take(n) =~= line);
    assert(all.skip(n + 1) =~= rest);
}

/// A line `data: ` carries what stands behind it, character for character, and `[DONE]`
/// there means the end. What follows the line is left for later.
pub proof fn data_lines_carry_their_payload(payload: Seq<char>, rest: Seq<char>)
    requires
        payload.len() > 0,
        !payload.contains('\n'),
        !is_space(payload.last()),
    ensures
        next_event("data: "@ + payload + seq!['\n'] + rest) == (
            Some(
                if payload == "[DONE]"@ {
                    SseEventView::Done
                } else {
                    SseEventView::Data { payload }
                },
            ),
            rest,
        ),
{
    reveal_strlit("data: ");
    let line = "data: "@ + payload;
    assert(!line.contains('\n')) by {
        assert forall|i: int| 0 <= i < line.len() implies line[i] != '\n' by {
            if i >= 6 {
                assert(line[i] == payload[i - 6]);
                assert(payload.contains(payload[i - 6]));
            }
        }
    }
    lemma_line_then(line, rest);
    assert(line[0] == 'd');
    assert(line.last() == payload.last());
    tight_texts_stay(line);
    assert(line.take(6) =~= "data: "@);
    assert(line.skip(6) =~= payload);
}

/// A line of another kind carries nothing, and without a whole line there is no event yet
/// and nothing is lost.
pub proof fn other_lines_carry_nothing(line: Seq<char>, rest: Seq<char>)
    requires
        !line.contains('\n'),
    ensures
        !begins(trimmed(line), "data: "@) ==> next_event(line + seq!['\n'] + rest) == next_event(rest),
        next_event(line) == (None::<SseEventView>, line),
{
    lemma_line_then(line, rest);
    lemma_line_len(line);
    let k = line_len(line) as int;
    if k < line.len() {
        assert(line.contains(line[k]));
    }
}

// ---------------------------------------------------------------------------
// Tool calls
// ---------------------------------------------------------------------------

/// The arguments of all pieces of the call at `index`, one after another.
pub open spec fn arguments_for(deltas: Seq<SseCallDeltaView>, index: int) -> Seq<char>
    decreases deltas.len(),
{
    if deltas.len() == 0 {
        Seq::empty()
    } else {
        let before = arguments_for(deltas.drop_last(), index);
        let last = deltas.last();
        if last.index == index && last.arguments is Some {
            before + last.arguments->0
        } else {
            before
        }
    }
}

/// The id in the last piece of the call at `index` that has one.
pub open spec fn id_for(deltas: Seq<SseCallDeltaView>, index: int) -> Option<Seq<char>>
    decreases deltas.len(),
{
    if deltas.len() == 0 {
        None
    } else if deltas.last().index == index && deltas.last().id is Some {
        deltas.last().id
    } else {
        id_for(deltas.drop_last(), index)
    }
}

/// The name in the last piece of the call at `index` that has one.
pub open spec fn name_for(deltas: Seq<SseCallDeltaView>, index: int) -> Option<Seq<char>>
    decreases deltas.len(),
{
    if deltas.len() == 0 {
        None
    } else if deltas.last().index == index && deltas.last().name is Some {
        deltas.last().name
    } else {
        name_for(deltas.drop_last(), index)
    }
}

/// Calls are put together from their pieces by their index, whatever else the pieces carry
/// and however they are mixed: the arguments of a call are those of all its pieces in their
/// order, its id and its name are the last that a piece of it has. There is a place for
/// every index that a piece has.
pub proof fn calls_are_put_together_by_index(deltas: Seq<SseCallDeltaView>, index: int)
    ensures
        ({
            let slots = with_call_deltas(Seq::empty(), deltas);
            &&& 0 <= index < slots.len() ==> {
                &&& slots[index].arguments == arguments_for(deltas, index)
                &&& slots[index].id == id_for(deltas, index)
                &&& slots[index].name == name_for(deltas, index)
            }
            &&& forall|i: int|
                0 <= i < deltas.len() ==> (#[trigger] deltas[i]).index < slots.len()
            &&& index >= slots.len() ==> id_for(deltas, index) is None && name_for(deltas, index)
                is None && arguments_for(deltas, index).len() == 0
        }),
    decreases deltas.len(),
{
    if deltas.len() > 0 {
        let front = deltas.drop_last();
        let last = deltas.last();
        let before = with_call_deltas(Seq::empty(), front);
        calls_are_put_together_by_index(front, index);
        let all = grown(before, last.index as nat + 1);
        let slots = with_call_deltas(Seq::empty(), deltas);
        assert(slots == with_call_delta(before, last));
        assert forall|i: int| 0 <= i < deltas.len() implies (#[trigger] deltas[i]).index
            < slots.len() by {
            if i < front.len() {
                assert(front[i] == deltas[i]);
            }
        }
        if 0 <= index < slots.len() && index >= before.len() {
            assert(all[index].arguments =~= Seq::<char>::empty());
        }
    }
}

/// The pieces of calls in pieces of a reply, in their order.
pub open spec fn call_pieces(deltas: Seq<SseDeltaView>) -> Seq<SseCallDeltaView>
    decreases deltas.len(),
{
    if deltas.len() == 0 {
        Seq::empty()
    } else {
        call_pieces(deltas.drop_last()) + deltas.last().tool_calls
    }
}

/// The text of all pieces of a reply, one after another.
pub open spec fn text_pieces(deltas: Seq<SseDeltaView>) -> Seq<char>
    decreases deltas.len(),
{
    if deltas.len() == 0 {
        Seq::empty()
    } else {
        let before = text_pieces(deltas.drop_last());
        match deltas.last().content {
            Some(content) => before + content,
            None => before,
        }
    }
}

proof fn lemma_call_deltas_append(
    slots: Seq<CallSlotView>,
    a: Seq<SseCallDeltaView>,
    b: Seq<SseCallDeltaView>,
)
    ensures
        with_call_deltas(slots, a + b) == with_call_deltas(with_call_deltas(slots, a), b),
    decreases b.len(),
{
    if b.len() == 0 {
        assert(a + b =~= a);
    } else {
        assert((a + b).drop_last() =~= a + b.drop_last());
        assert((a + b).last() == b.last());
        lemma_call_deltas_append(slots, a, b.drop_last());
    }
}

/// A reply is all of its pieces: its text is the text of all of them one after another, and
/// its calls are put together from the pieces of calls in all of them. What is shown while
/// it arrives is every text, each as it came.
pub proof fn replies_are_all_of_their_pieces(stream: SseStreamView, deltas: Seq<SseDeltaView>)
    ensures
        with_deltas(stream, deltas).text == stream.text + text_pieces(deltas),
        with_deltas(stream, deltas).slots == with_call_deltas(stream.slots, call_pieces(deltas)),
        with_deltas(stream, deltas).buffer == stream.buffer,
    decreases deltas.len(),
{
    if deltas.len() == 0 {
        assert(stream.text + text_pieces(deltas) =~= stream.text);
    } else {
        let front = deltas.drop_last();
        replies_are_all_of_their_pieces(stream, front);
        lemma_call_deltas_append(stream.slots, call_pieces(front), deltas.last().tool_calls);
        match deltas.last().content {
            Some(content) => {
                assert(stream.text + text_pieces(front) + content =~= stream.text + (text_pieces(
                    front,
                ) + content));
            },
            None => {},
        }
    }
}

/// Every text of a piece is shown as it came, and nothing else is.
pub proof fn every_text_is_shown(deltas: Seq<SseDeltaView>, delta: SseDeltaView)
    ensures
        tokens_of(Seq::<SseDeltaView>::empty()).len() == 0,
        delta.content is Some ==> tokens_of(deltas.push(delta)) == tokens_of(deltas).push(
            delta.content->0,
        ),
        delta.content is None ==> tokens_of(deltas.push(delta)) == tokens_of(deltas),
{
    assert(deltas.push(delta).drop_last() =~= deltas);
}

/// Whether a call is complete: it has an id and a name.
pub open spec fn is_complete(slot: CallSlotView) -> bool {
    slot.id is Some && slot.name is Some
}

/// Whether `calls` are the complete calls of `slots`, at the positions `at`, in their order.
pub open spec fn are_complete_calls(
    slots: Seq<CallSlotView>,
    at: Seq<int>,
    calls: Seq<ToolCallView>,
) -> bool {
    &&& at.len() == calls.len()
    &&& forall|i: int, j: int| 0 <= i < j < at.len() ==> at[i] < at[j]
    &&& forall|i: int|
        0 <= i < at.len() ==> {
            let slot = slots[#[trigger] at[i]];
            &&& 0 <= at[i] < slots.len()
            &&& is_complete(slot)
            &&& calls[i].id == slot.id->0
            &&& calls[i].name == slot.name->0
            &&& calls[i].arguments == if slot.arguments.len() == 0 {
                "{}"@
            } else {
                slot.arguments
            }
        }
    &&& forall|k: int| 0 <= k < slots.len() && is_complete(#[trigger] slots[k]) ==> at.contains(k)
}

proof fn lemma_calls_of(slots: Seq<CallSlotView>) -> (at: Seq<int>)
    ensures
        are_complete_calls(slots, at, calls_of(slots)),
    decreases slots.len(),
{
    if slots.len() == 0 {
        Seq::empty()
    } else {
        let front = slots.drop_last();
        let before = lemma_calls_of(front);
        let n = slots.len() - 1;
        let at = if is_complete(slots.last()) {
            before.push(n)
        } else {
            before
        };
        let calls = calls_of(slots);
        assert forall|i: int| 0 <= i < at.len() implies {
            let slot = slots[#[trigger] at[i]];
            &&& 0 <= at[i] < slots.len()
            &&& is_complete(slot)
            &&& calls[i].id == slot.id->0
            &&& calls[i].name == slot.name->0
            &&& calls[i].arguments == if slot.arguments.len() == 0 {
                "{}"@
            } else {
                slot.arguments
            }
        } by {
            if i < before.len() {
                assert(at[i] == before[i]);
                assert(front[before[i]] == slots[before[i]]);
                assert(calls[i] == calls_of(front)[i]);
            }
        }
        assert forall|i: int, j: int| 0 <= i < j < at.len() implies at[i] < at[j] by {
            if j == before.len() {
                assert(at[i] == before[i]);
                assert(before[i] < front.len());
            } else {
                assert(at[i] == before[i] && at[j] == before[j]);
            }
        }
        assert forall|k: int| 0 <= k < slots.len() && is_complete(#[trigger] slots[k]) implies
            at.contains(k) by {
            if k < n {
                assert(front[k] == slots[k]);
                assert(before.contains(k));
                let l = choose|l: int| 0 <= l < before.len() && before[l] == k;
                assert(at[l] == k);
            } else {
                assert(at[before.len() as int] == n);
            }
        }
        at
    }
}

/// A reply that has ended means its complete calls, in the order of their indices and with
/// `{}` for arguments that are empty; without any it means its text; and without that
/// there was none.
pub proof fn ended_replies_mean_calls_or_text(stream: SseStreamView)
    ensures
        ({
            let none_complete = forall|k: int|
                0 <= k < stream.slots.len() ==> !is_complete(#[trigger] stream.slots[k]);
            let means = stream_response(stream);
            &&& !none_complete ==> means is Ok && means->Ok_0 is ToolCalls && exists|at: Seq<int>|
                are_complete_calls(stream.slots, at, means->Ok_0->calls)
            &&& none_complete && stream.text.len() > 0 ==> means == Ok::<
                ProviderResponseView,
                RemoteErrorView,
            >(ProviderResponseView::Text { content: stream.text })
            &&& none_complete && stream.text.len() == 0 ==> means == Err::<
                ProviderResponseView,
                RemoteErrorView,
            >(RemoteErrorView::EmptyStream)
        }),
{
    let at = lemma_calls_of(stream.slots);
    let calls = calls_of(stream.slots);
    if calls.len() > 0 {
        let means = stream_response(stream);
        assert(means->Ok_0->calls == calls);
        assert(are_complete_calls(stream.slots, at, means->Ok_0->calls));
        assert(is_complete(stream.slots[at[0]]));
    } else {
        assert forall|k: int| 0 <= k < stream.slots.len() implies !is_complete(
            #[trigger] stream.slots[k],
        ) by {
            if is_complete(stream.slots[k]) {
                assert(at.contains(k));
            }
        }
    }
}

} // verus!
