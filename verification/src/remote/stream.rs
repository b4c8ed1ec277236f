//! A reply that arrives in pieces, as server-sent events.
use vstd::prelude::*;
use vstd::utf8::{decode_utf8, valid_utf8};
use crate::measure::{decode_lossy, utf8_lossy};
use crate::message::{call_views, ToolCall, ToolCallView};
use crate::provider::{ProviderResponse, ProviderResponseView};
use crate::remote::response::{
    arguments_or_empty, response_result, with_arguments, RemoteError, RemoteErrorView,
};
use crate::text::{
    after_prefix, copy_opt, lemma_line_len, lemma_views_push, line_end, line_len, opt_view, same,
    slice_string, strip_prefix, to_chars, trim, trimmed, views,
};

verus! {

/// A piece of a tool call.
#[derive(Debug, PartialEq, Eq)]
pub struct SseCallDelta {
    pub index: u32,
    pub id: Option<String>,
    pub name: Option<String>,
    pub arguments: Option<String>,
}

/// The value of a `SseCallDelta`.
pub struct SseCallDeltaView {
    pub index: u32,
    pub id: Option<Seq<char>>,
    pub name: Option<Seq<char>>,
    pub arguments: Option<Seq<char>>,
}

impl View for SseCallDelta {
    type V = SseCallDeltaView;

    open spec fn view(&self) -> SseCallDeltaView {
        SseCallDeltaView {
            index: self.index,
            id: opt_view(self.id),
            name: opt_view(self.name),
            arguments: opt_view(self.arguments),
        }
    }
}

/// The values of a list of `SseCallDelta`.
pub open spec fn sse_call_delta_views(s: Seq<SseCallDelta>) -> Seq<SseCallDeltaView> {
    Seq::new(s.len(), |i: int| s[i]@)
}

/// A piece of a reply.
#[derive(Debug, PartialEq, Eq)]
pub struct SseDelta {
    pub content: Option<String>,
    pub tool_calls: Vec<SseCallDelta>,
}

/// The value of a `SseDelta`.
pub struct SseDeltaView {
    pub content: Option<Seq<char>>,
    pub tool_calls: Seq<SseCallDeltaView>,
}

impl View for SseDelta {
    type V = SseDeltaView;

    open spec fn view(&self) -> SseDeltaView {
        SseDeltaView {
            content: opt_view(self.content),
            tool_calls: sse_call_delta_views(self.tool_calls@),
        }
    }
}

/// The values of a list of `SseDelta`.
pub open spec fn sse_delta_views(s: Seq<SseDelta>) -> Seq<SseDeltaView> {
    Seq::new(s.len(), |i: int| s[i]@)
}

/// An event of a stream.
#[derive(Debug, PartialEq, Eq)]
pub enum SseEvent {
    /// A piece of the reply, as JSON text.
    Data { payload: String },
    /// The reply is complete.
    Done,
}

/// The value of a `SseEvent`.
pub enum SseEventView {
    Data { payload: Seq<char> },
    Done,
}

impl View for SseEvent {
    type V = SseEventView;

    open spec fn view(&self) -> SseEventView {
        match self {
            SseEvent::Data { payload } => SseEventView::Data {
                payload: payload@,
            },
            SseEvent::Done => SseEventView::Done,
        }
    }
}

/// A tool call that is being put together.
#[derive(Debug, PartialEq, Eq)]
pub struct CallSlot {
    pub id: Option<String>,
    pub name: Option<String>,
    pub arguments: String,
}

/// The value of a `CallSlot`.
pub struct CallSlotView {
    pub id: Option<Seq<char>>,
    pub name: Option<Seq<char>>,
    pub arguments: Seq<char>,
}

impl View for CallSlot {
    type V = CallSlotView;

    open spec fn view(&self) -> CallSlotView {
        CallSlotView {
            id: opt_view(self.id),
            name: opt_view(self.name),
            arguments: self.arguments@,
        }
    }
}

/// The values of a list of `CallSlot`.
pub open spec fn call_slot_views(s: Seq<CallSlot>) -> Seq<CallSlotView> {
    Seq::new(s.len(), |i: int| s[i]@)
}

/// A reply that arrives in pieces: the text that is not yet split into lines, the tool
/// calls so far, and the text so far.
#[derive(Debug)]
pub struct SseStream {
    buffer: String,
    slots: Vec<CallSlot>,
    text: String,
}

/// The value of an `SseStream`.
pub struct SseStreamView {
    pub buffer: Seq<char>,
    pub slots: Seq<CallSlotView>,
    pub text: Seq<char>,
}

impl View for SseStream {
    type V = SseStreamView;

    closed spec fn view(&self) -> SseStreamView {
        SseStreamView {
            buffer: self.buffer@,
            slots: call_slot_views(self.slots@),
            text: self.text@,
        }
    }
}

/// The event that a line carries, if any: lines without `data: ` carry none.
pub open spec fn line_event(line: Seq<char>) -> Option<SseEventView> {
    match after_prefix(trimmed(line), "data: "@) {
        Some(payload) => if payload == "[DONE]"@ {
            Some(SseEventView::Done)
        } else {
            Some(SseEventView::Data { payload })
        },
        None => None,
    }
}

/// The first event in the complete lines of `buffer`, and what is left behind it.
pub open spec fn next_event(buffer: Seq<char>) -> (Option<SseEventView>, Seq<char>)
    decreases buffer.len(),
    via next_event_decreases
{
    let k = line_len(buffer) as int;
    if k >= buffer.len() {
        (None, buffer)
    } else {
        let rest = buffer.skip(k + 1);
        match line_event(buffer.take(k)) {
            Some(event) => (Some(event), rest),
            None => next_event(rest),
        }
    }
}

#[via_fn]
proof fn next_event_decreases(buffer: Seq<char>) {
    lemma_line_len(buffer);
}

/// A slot with nothing in it.
pub open spec fn empty_slot() -> CallSlotView {
    CallSlotView { id: None, name: None, arguments: Seq::empty() }
}

/// The slots, with empty ones added until there are at least `n`.
pub open spec fn grown(slots: Seq<CallSlotView>, n: nat) -> Seq<CallSlotView> {
    if slots.len() >= n {
        slots
    } else {
        Seq::new(n, |i: int| if i < slots.len() { slots[i] } else { empty_slot() })
    }
}

/// A slot with a piece added: ids and names replace, arguments append.
pub open spec fn merged(slot: CallSlotView, delta: SseCallDeltaView) -> CallSlotView {
    CallSlotView {
        id: if delta.id is Some {
            delta.id
        } else {
            slot.id
        },
        name: if delta.name is Some {
            delta.name
        } else {
            slot.name
        },
        arguments: match delta.arguments {
            Some(arguments) => slot.arguments + arguments,
            None => slot.arguments,
        },
    }
}

/// The slots with a piece of a call added.
pub open spec fn with_call_delta(
    slots: Seq<CallSlotView>,
    delta: SseCallDeltaView,
) -> Seq<CallSlotView> {
    let all = grown(slots, delta.index as nat + 1);
    all.update(delta.index as int, merged(all[delta.index as int], delta))
}

/// The slots with pieces of calls added in turn.
pub open spec fn with_call_deltas(
    slots: Seq<CallSlotView>,
    deltas: Seq<SseCallDeltaView>,
) -> Seq<CallSlotView>
    decreases deltas.len(),
{
    if deltas.len() == 0 {
        slots
    } else {
        with_call_delta(with_call_deltas(slots, deltas.drop_last()), deltas.last())
    }
}

/// The stream with pieces of the reply added in turn.
pub open spec fn with_deltas(stream: SseStreamView, deltas: Seq<SseDeltaView>) -> SseStreamView
    decreases deltas.len(),
{
    if deltas.len() == 0 {
        stream
    } else {
        let before = with_deltas(stream, deltas.drop_last());
        let last = deltas.last();
        SseStreamView {
            buffer: before.buffer,
            slots: with_call_deltas(before.slots, last.tool_calls),
            text: match last.content {
                Some(content) => before.text + content,
                None => before.text,
            },
        }
    }
}

/// The texts among pieces of a reply.
pub open spec fn tokens_of(deltas: Seq<SseDeltaView>) -> Seq<Seq<char>>
    decreases deltas.len(),
{
    if deltas.len() == 0 {
        Seq::empty()
    } else {
        match deltas.last().content {
            Some(content) => tokens_of(deltas.drop_last()).push(content),
            None => tokens_of(deltas.drop_last()),
        }
    }
}

/// The calls that are complete: those with an id and a name.
pub open spec fn calls_of(slots: Seq<CallSlotView>) -> Seq<ToolCallView>
    decreases slots.len(),
{
    if slots.len() == 0 {
        Seq::empty()
    } else {
        let before = calls_of(slots.drop_last());
        let slot = slots.last();
        if slot.id is Some && slot.name is Some {
            before.push(
                with_arguments(
                    ToolCallView {
                        id: slot.id->0,
                        name: slot.name->0,
                        arguments: slot.arguments,
                    },
                ),
            )
        } else {
            before
        }
    }
}

/// What a stream means once it has ended.
pub open spec fn stream_response(stream: SseStreamView) -> Result<
    ProviderResponseView,
    RemoteErrorView,
> {
    if calls_of(stream.slots).len() > 0 {
        Ok(ProviderResponseView::ToolCalls { calls: calls_of(stream.slots) })
    } else if stream.text.len() > 0 {
        Ok(ProviderResponseView::Text { content: stream.text })
    } else {
        Err(RemoteErrorView::EmptyStream)
    }
}

proof fn lemma_slots_push(slots: Seq<CallSlot>, slot: CallSlot)
    ensures
        call_slot_views(slots.push(slot)) == call_slot_views(slots).push(slot@),
{
    assert(call_slot_views(slots.push(slot)) =~= call_slot_views(slots).push(slot@));
}

/// Appends an optional text to a slot.
fn append_opt(text: String, more: &Option<String>) -> (r: String)
    ensures
        r@ == match opt_view(*more) {
            Some(m) => text@ + m,
            None => text@,
        },
{
    match more {
        Some(m) => text.concat(m.as_str()),
        None => text,
    }
}

/// The second text where there is one, else the first.
fn later_opt(first: &Option<String>, second: &Option<String>) -> (r: Option<String>)
    ensures
        opt_view(r) == if opt_view(*second) is Some {
            opt_view(*second)
        } else {
            opt_view(*first)
        },
{
    match second {
        Some(s) => Some(s.clone()),
        None => copy_opt(first),
    }
}

impl SseStream {
    /// A stream of which nothing has arrived.
    pub fn new() -> (r: Self)
        ensures
            r@ == (SseStreamView {
                buffer: Seq::empty(),
                slots: Seq::empty(),
                text: Seq::empty(),
            }),
    {
        let r = SseStream { buffer: String::new(), slots: Vec::new(), text: String::new() };
        proof {
            assert(call_slot_views(r.slots@) =~= Seq::empty());
        }
        r
    }

    /// Takes in a text that arrived.
    pub fn feed_text(&mut self, text: &str)
        ensures
            final(self)@ == (SseStreamView { buffer: old(self)@.buffer + text@, ..old(self)@ }),
    {
        self.buffer.append(text);
    }

    /// Takes in bytes that arrived.
    pub fn feed(&mut self, bytes: &[u8])
        ensures
            final(self)@ == (SseStreamView {
                buffer: old(self)@.buffer + utf8_lossy(bytes@),
                ..old(self)@
            }),
            valid_utf8(bytes@) ==> final(self)@.buffer == old(self)@.buffer + decode_utf8(bytes@),
    {
        let text = decode_lossy(bytes);
        self.feed_text(text.as_str());
    }

    /// The next event among the lines that have arrived, if there is one.
    pub fn next_event(&mut self) -> (r: Option<SseEvent>)
        ensures
            ({
                let (event, rest) = next_event(old(self)@.buffer);
                &&& final(self)@ == (SseStreamView { buffer: rest, ..old(self)@ })
                &&& match r {
                    Some(e) => event == Some(e@),
                    None => event is None,
                }
            }),
    {
        let v = to_chars(self.buffer.as_str());
        let n: usize = v.len();
        let mut pos: usize = 0;
        proof {
            assert(v@.skip(0) =~= v@);
        }
        loop
            invariant
                pos <= v@.len() == n,
                self@ == old(self)@,
                next_event(old(self)@.buffer) == next_event(v@.skip(pos as int)),
            decreases n - pos,
        {
            let e: usize = line_end(&v, pos);
            let ghost here = v@.skip(pos as int);
            if e == n {
                self.buffer = slice_string(&v, pos, n);
                proof {
                    assert(v@.subrange(pos as int, n as int) =~= here);
                }
                return None;
            }
            let line = slice_string(&v, pos, e);
            proof {
                let k = line_len(here) as int;
                assert(here.take(k) =~= v@.subrange(pos as int, e as int));
                assert(here.skip(k + 1) =~= v@.skip(e + 1));
            }
            match strip_prefix(trim(line.as_str()).as_str(), "data: ") {
                Some(payload) => {
                    self.buffer = slice_string(&v, e + 1, n);
                    proof {
                        assert(v@.subrange(e + 1, n as int) =~= v@.skip(e + 1));
                    }
                    if same(payload.as_str(), "[DONE]") {
                        return Some(SseEvent::Done);
                    }
                    return Some(SseEvent::Data { payload });
                },
                None => {},
            }
            pos = e + 1;
        }
    }

    fn grow(&mut self, index: u32)
        ensures
            final(self)@ == (SseStreamView {
                slots: grown(old(self)@.slots, index as nat + 1),
                ..old(self)@
            }),
            final(self).slots@.len() > index,
    {
        let ghost before = call_slot_views(self.slots@);
        proof {
            assert(before.len() == self.slots@.len());
        }
        while self.slots.len() as u64 <= index as u64
            invariant
                before.len() <= self.slots@.len(),
                before == call_slot_views(old(self).slots@),
                self.buffer == old(self).buffer,
                self.text == old(self).text,
                self.slots@.len() > before.len() ==> self.slots@.len() <= index + 1,
                forall|i: int|
                    0 <= i < self.slots@.len() ==> (#[trigger] call_slot_views(self.slots@)[i])
                        == if i < before.len() {
                        before[i]
                    } else {
                        empty_slot()
                    },
            decreases index + 1 - self.slots@.len(),
        {
            let slot = CallSlot { id: None, name: None, arguments: String::new() };
            proof {
                assert(slot@ == empty_slot()) by {
                    assert(slot.arguments@ =~= Seq::empty());
                }
                lemma_slots_push(self.slots@, slot);
            }
            self.slots.push(slot);
        }
        proof {
            assert(call_slot_views(self.slots@) =~= grown(before, index as nat + 1));
        }
    }

    fn add_call_delta(&mut self, delta: &SseCallDelta)
        ensures
            final(self)@ == (SseStreamView {
                slots: with_call_delta(old(self)@.slots, delta@),
                ..old(self)@
            }),
    {
        self.grow(delta.index);
        let i: usize = delta.index as usize;
        let ghost all = call_slot_views(self.slots@);
        proof {
            assert(all[i as int] == self.slots@[i as int]@);
        }
        let slot = CallSlot {
            id: later_opt(&self.slots[i].id, &delta.id),
            name: later_opt(&self.slots[i].name, &delta.name),
            arguments: append_opt(self.slots[i].arguments.clone(), &delta.arguments),
        };
        proof {
            assert(slot@ == merged(all[i as int], delta@));
        }
        self.slots.set(i, slot);
        proof {
            assert(call_slot_views(self.slots@) =~= all.update(i as int, slot@));
        }
    }

    /// Takes in pieces of the reply, and gives the texts among them, in order.
    pub fn apply(&mut self, deltas: &Vec<SseDelta>) -> (tokens: Vec<String>)
        ensures
            final(self)@ == with_deltas(old(self)@, sse_delta_views(deltas@)),
            views(tokens@) == tokens_of(sse_delta_views(deltas@)),
    {
        let mut tokens: Vec<String> = Vec::new();
        let mut i: usize = 0;
        let ghost all = sse_delta_views(deltas@);
        proof {
            assert(views(tokens@) =~= tokens_of(all.take(0)));
        }
        while i < deltas.len()
            invariant
                i <= deltas@.len(),
                all == sse_delta_views(deltas@),
                self@ == with_deltas(old(self)@, all.take(i as int)),
                views(tokens@) == tokens_of(all.take(i as int)),
            decreases deltas.len() - i,
        {
            let delta = &deltas[i];
            let ghost before = self@;
            proof {
                assert(all.take(i + 1).drop_last() =~= all.take(i as int));
                assert(all.take(i + 1).last() == delta@);
            }
            match &delta.content {
                Some(content) => {
                    let token = content.clone();
                    self.text.append(content.as_str());
                    proof {
                        lemma_views_push(tokens@, token);
                    }
                    tokens.push(token);
                },
                None => {},
            }
            let ghost middle = self@;
            let ghost parts = sse_call_delta_views(delta.tool_calls@);
            let mut j: usize = 0;
            proof {
                assert(with_call_deltas(before.slots, parts.take(0)) == before.slots);
            }
            while j < delta.tool_calls.len()
                invariant
                    j <= delta.tool_calls@.len(),
                    parts == sse_call_delta_views(delta.tool_calls@),
                    self@ == (SseStreamView {
                        slots: with_call_deltas(middle.slots, parts.take(j as int)),
                        ..middle
                    }),
                decreases delta.tool_calls.len() - j,
            {
                proof {
                    assert(parts.take(j + 1).drop_last() =~= parts.take(j as int));
                    assert(parts.take(j + 1).last() == delta.tool_calls@[j as int]@);
                }
                self.add_call_delta(&delta.tool_calls[j]);
                j += 1;
            }
            proof {
                assert(parts.take(delta.tool_calls@.len() as int) =~= parts);
            }
            i += 1;
        }
        proof {
            assert(all.take(deltas@.len() as int) =~= all);
        }
        tokens
    }

    /// What the reply means once it has ended.
    pub fn finish(&self) -> (r: Result<ProviderResponse, RemoteError>)
        ensures
            response_result(r) == stream_response(self@),
    {
        let mut calls: Vec<ToolCall> = Vec::new();
        let mut i: usize = 0;
        let ghost all = call_slot_views(self.slots@);
        proof {
            assert(call_views(calls@) =~= calls_of(all.take(0)));
        }
        while i < self.slots.len()
            invariant
                i <= self.slots@.len(),
                all == call_slot_views(self.slots@),
                call_views(calls@) == calls_of(all.take(i as int)),
            decreases self.slots.len() - i,
        {
            let slot = &self.slots[i];
            proof {
                assert(all.take(i + 1).drop_last() =~= all.take(i as int));
                assert(all.take(i + 1).last() == slot@);
            }
            match (&slot.id, &slot.name) {
                (Some(id), Some(name)) => {
                    let call = ToolCall {
                        id: id.clone(),
                        name: name.clone(),
                        arguments: arguments_or_empty(slot.arguments.as_str()),
                    };
                    proof {
                        assert(call_views(calls@.push(call)) =~= call_views(calls@).push(call@));
                    }
                    calls.push(call);
                },
                _ => {},
            }
            i += 1;
        }
        proof {
            assert(all.take(self.slots@.len() as int) =~= all);
            assert(call_views(calls@).len() == calls@.len());
        }
        if calls.len() > 0 {
            Ok(ProviderResponse::ToolCalls { calls })
        } else if to_chars(self.text.as_str()).len() > 0 {
            Ok(ProviderResponse::Text { content: self.text.clone() })
        } else {
            Err(RemoteError::EmptyStream)
        }
    }
}

// ---------------------------------------------------------------------------
// Laws
// ---------------------------------------------------------------------------

proof fn lemma_line_len_append(a: Seq<char>, b: Seq<char>)
    ensures
        line_len(a) < a.len() ==> line_len(a + b) == line_len(a),
        line_len(a) == a.len() ==> line_len(a + b) == a.len() + line_len(b),
    decreases a.len(),
{
    if a.len() == 0 {
        assert(a + b =~= b);
    } else {
        assert((a + b)[0] == a[0]);
        if a[0] != '\n' {
            assert((a + b).drop_first() =~= a.drop_first() + b);
            lemma_line_len_append(a.drop_first(), b);
        }
    }
}

/// Where a text is cut into pieces on its way makes no difference: an event that is
/// complete does not depend on what follows, and where none is complete what is kept,
/// with what follows, gives the events of the whole.
pub proof fn events_do_not_depend_on_pieces(a: Seq<char>, b: Seq<char>)
    ensures
        ({
            let (event, rest) = next_event(a);
            next_event(a + b) == if event is Some {
                (event, rest + b)
            } else {
                next_event(rest + b)
            }
        }),
    decreases a.len(),
{
    lemma_line_len(a);
    lemma_line_len_append(a, b);
    let k = line_len(a) as int;
    if k < a.len() {
        let rest = a.skip(k + 1);
        assert((a + b).take(k) =~= a.take(k));
        assert((a + b).skip(k + 1) =~= rest + b);
        if line_event(a.take(k)) is None {
            events_do_not_depend_on_pieces(rest, b);
        }
    }
}

/// The parts one after another.
pub open spec fn concatenated(parts: Seq<Seq<char>>) -> Seq<char>
    decreases parts.len(),
{
    if parts.len() == 0 {
        Seq::empty()
    } else {
        concatenated(parts.drop_last()) + parts.last()
    }
}

/// The texts that are shown while a reply arrives are, put together, the text of the reply.
pub proof fn tokens_make_up_the_text(stream: SseStreamView, deltas: Seq<SseDeltaView>)
    ensures
        with_deltas(stream, deltas).text == stream.text + concatenated(tokens_of(deltas)),
    decreases deltas.len(),
{
    if deltas.len() == 0 {
        assert(stream.text + Seq::<char>::empty() =~= stream.text);
    } else {
        let front = deltas.drop_last();
        tokens_make_up_the_text(stream, front);
        match deltas.last().content {
            Some(content) => {
                let t = tokens_of(front);
                assert(t.push(content).drop_last() =~= t);
                assert(stream.text + concatenated(t) + content =~= stream.text + (concatenated(t)
                    + content));
            },
            None => {},
        }
    }
}

} // verus!
