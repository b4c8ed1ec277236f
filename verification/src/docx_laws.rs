//! What holds of the text of every Word file.
use vstd::prelude::*;
use crate::docx::{
    after_event, docx_error_text, empty_document, entry_text, events_text, DocxErrorView, DocxTextView, XmlEventView,
    ZipEntryView,
};
use crate::text::joined;

verus! {

/// A text inside a text element stands behind what the paragraph held, character for
/// character, and ends no paragraph.
pub proof fn texts_follow_one_another(doc: DocxTextView, text: Seq<char>)
    requires
        doc.in_text,
    ensures
        ({
            let after = after_event(doc, XmlEventView::Text { text: Some(text) });
            &&& after.current == doc.current + text
            &&& after.paragraphs == doc.paragraphs
            &&& after.in_text
        }),
{
}

/// The opening tag of an element, by its local name.
pub open spec fn opening(name: u8) -> XmlEventView {
    XmlEventView::Start { name: seq![name] }
}

/// The closing tag of an element, by its local name.
pub open spec fn closing(name: u8) -> XmlEventView {
    XmlEventView::End { name: seq![name] }
}

/// Whether an event is of no account where no text element is open: anything but the
/// opening tag of a paragraph or of a text, an error and the end.
pub open spec fn is_markup(event: XmlEventView) -> bool {
    match event {
        XmlEventView::Start { name } => name != seq![116u8] && name != seq![112u8],
        XmlEventView::Broken { reason } => false,
        XmlEventView::Eof => false,
        _ => true,
    }
}

/// Markup changes nothing where no text element is open.
pub proof fn markup_adds_nothing(doc: DocxTextView, event: XmlEventView)
    requires
        !doc.in_text,
        is_markup(event),
    ensures
        after_event(doc, event) == doc,
{
}

/// A run: some markup, a text element with a text, and more markup.
pub struct RunEvents {
    pub before: Seq<XmlEventView>,
    pub text: Seq<char>,
    pub after: Seq<XmlEventView>,
}

/// Whether events are markup throughout.
pub open spec fn all_markup(events: Seq<XmlEventView>) -> bool {
    forall|i: int| 0 <= i < events.len() ==> is_markup(#[trigger] events[i])
}

/// The events of a run: the letter `t` names the element of its text.
pub open spec fn run_events(run: RunEvents) -> Seq<XmlEventView> {
    run.before + seq![
        opening(116),
        XmlEventView::Text { text: Some(run.text) },
        closing(116),
    ] + run.after
}

/// The events of some runs.
pub open spec fn all_run_events(runs: Seq<RunEvents>) -> Seq<XmlEventView>
    decreases runs.len(),
{
    if runs.len() == 0 {
        Seq::empty()
    } else {
        run_events(runs[0]) + all_run_events(runs.drop_first())
    }
}

/// The events of some paragraphs: the letter `p` names their element.
pub open spec fn document_events(paragraphs: Seq<Seq<RunEvents>>) -> Seq<XmlEventView>
    decreases paragraphs.len(),
{
    if paragraphs.len() == 0 {
        Seq::empty()
    } else {
        seq![opening(112)] + all_run_events(paragraphs[0]) + seq![closing(112)] + document_events(
            paragraphs.drop_first(),
        )
    }
}

/// The texts of some runs, one after another.
pub open spec fn text_of_runs(runs: Seq<RunEvents>) -> Seq<char>
    decreases runs.len(),
{
    if runs.len() == 0 {
        Seq::empty()
    } else {
        runs[0].text + text_of_runs(runs.drop_first())
    }
}

/// The texts of the paragraphs that have any.
pub open spec fn filled_paragraphs(paragraphs: Seq<Seq<RunEvents>>) -> Seq<Seq<char>>
    decreases paragraphs.len(),
{
    if paragraphs.len() == 0 {
        Seq::empty()
    } else {
        let text = text_of_runs(paragraphs[0]);
        let rest = filled_paragraphs(paragraphs.drop_first());
        if text.len() > 0 {
            seq![text] + rest
        } else {
            rest
        }
    }
}

/// Whether nothing but texts stands in text elements, and nothing but markup around them.
pub open spec fn are_runs(runs: Seq<RunEvents>) -> bool {
    forall|i: int|
        0 <= i < runs.len() ==> all_markup((#[trigger] runs[i]).before) && all_markup(runs[i].after)
}

proof fn lemma_markup(doc: DocxTextView, markup: Seq<XmlEventView>, rest: Seq<XmlEventView>)
    requires
        !doc.in_text,
        all_markup(markup),
    ensures
        events_text(doc, markup + rest) == events_text(doc, rest),
    decreases markup.len(),
{
    if markup.len() == 0 {
        assert(markup + rest =~= rest);
    } else {
        let less = markup.drop_first();
        assert forall|i: int| 0 <= i < less.len() implies is_markup(#[trigger] less[i]) by {
            assert(less[i] == markup[i + 1]);
        }
        assert((markup + rest)[0] == markup[0]);
        assert((markup + rest).drop_first() =~= less + rest);
        assert(is_markup(markup[0]));
        markup_adds_nothing(doc, markup[0]);
        lemma_markup(doc, less, rest);
    }
}

proof fn lemma_step(doc: DocxTextView, event: XmlEventView, rest: Seq<XmlEventView>)
    requires
        !(event is Broken),
        !(event is Eof),
    ensures
        events_text(doc, seq![event] + rest) == events_text(after_event(doc, event), rest),
{
    assert((seq![event] + rest).drop_first() =~= rest);
    assert((seq![event] + rest)[0] == event);
}

proof fn lemma_run(doc: DocxTextView, run: RunEvents, rest: Seq<XmlEventView>)
    requires
        !doc.in_text,
        all_markup(run.before),
        all_markup(run.after),
    ensures
        events_text(doc, run_events(run) + rest) == events_text(
            DocxTextView { current: doc.current + run.text, ..doc },
            rest,
        ),
{
    let text = XmlEventView::Text { text: Some(run.text) };
    let tail = run.after + rest;
    let d1 = after_event(doc, opening(116));
    let d2 = after_event(d1, text);
    let d3 = after_event(d2, closing(116));
    assert(run_events(run) + rest =~= run.before + (seq![opening(116)] + (seq![text] + (seq![
        closing(116),
    ] + tail))));
    lemma_markup(doc, run.before, seq![opening(116)] + (seq![text] + (seq![closing(116)] + tail)));
    assert(seq![116u8] != seq![112u8]) by {
        assert(seq![116u8][0] != seq![112u8][0]);
    }
    lemma_step(doc, opening(116), seq![text] + (seq![closing(116)] + tail));
    assert(d1 == (DocxTextView { in_text: true, ..doc }));
    lemma_step(d1, text, seq![closing(116)] + tail);
    lemma_step(d2, closing(116), tail);
    assert(d3 == (DocxTextView { current: doc.current + run.text, ..doc }));
    lemma_markup(d3, run.after, rest);
}

proof fn lemma_runs(doc: DocxTextView, runs: Seq<RunEvents>, rest: Seq<XmlEventView>)
    requires
        !doc.in_text,
        are_runs(runs),
    ensures
        events_text(doc, all_run_events(runs) + rest) == events_text(
            DocxTextView { current: doc.current + text_of_runs(runs), ..doc },
            rest,
        ),
    decreases runs.len(),
{
    if runs.len() == 0 {
        assert(all_run_events(runs) + rest =~= rest);
        assert(doc.current + text_of_runs(runs) =~= doc.current);
    } else {
        let less = runs.drop_first();
        assert(all_markup(runs[0].before) && all_markup(runs[0].after));
        assert forall|i: int| 0 <= i < less.len() implies all_markup((#[trigger] less[i]).before)
            && all_markup(less[i].after) by {
            assert(less[i] == runs[i + 1]);
        }
        let next = DocxTextView { current: doc.current + runs[0].text, ..doc };
        assert(all_run_events(runs) + rest =~= run_events(runs[0]) + (all_run_events(less) + rest));
        lemma_run(doc, runs[0], all_run_events(less) + rest);
        lemma_runs(next, less, rest);
        assert(next.current + text_of_runs(less) =~= doc.current + text_of_runs(runs));
    }
}

/// The paragraphs that a document has so far, the one being read among them.
spec fn so_far(doc: DocxTextView) -> Seq<Seq<char>> {
    if doc.current.len() > 0 {
        doc.paragraphs.push(doc.current)
    } else {
        doc.paragraphs
    }
}

proof fn lemma_document(doc: DocxTextView, paragraphs: Seq<Seq<RunEvents>>)
    requires
        !doc.in_text,
        forall|i: int| 0 <= i < paragraphs.len() ==> are_runs(#[trigger] paragraphs[i]),
    ensures
        events_text(doc, document_events(paragraphs)) == Ok::<Seq<char>, DocxErrorView>(
            ({
                let all = so_far(doc) + filled_paragraphs(paragraphs);
                if all.len() == 0 {
                    "(no text content found in DOCX)"@
                } else {
                    joined(all, "\n"@)
                }
            }),
        ),
    decreases paragraphs.len(),
{
    if paragraphs.len() == 0 {
        assert(so_far(doc) + filled_paragraphs(paragraphs) =~= so_far(doc));
    } else {
        let less = paragraphs.drop_first();
        let runs = paragraphs[0];
        assert forall|i: int| 0 <= i < less.len() implies are_runs(#[trigger] less[i]) by {
            assert(less[i] == paragraphs[i + 1]);
        }
        let tail = document_events(less);
        let d1 = after_event(doc, opening(112));
        let d2 = DocxTextView { current: d1.current + text_of_runs(runs), ..d1 };
        assert(seq![112u8] != seq![116u8]) by {
            assert(seq![116u8][0] != seq![112u8][0]);
        }
        assert(document_events(paragraphs) =~= seq![opening(112)] + (all_run_events(runs) + (seq![
            closing(112),
        ] + tail)));
        lemma_step(doc, opening(112), all_run_events(runs) + (seq![closing(112)] + tail));
        lemma_runs(d1, runs, seq![closing(112)] + tail);
        lemma_step(d2, closing(112), tail);
        assert(after_event(d2, closing(112)) == d2);
        lemma_document(d2, less);
        assert(d1.current =~= Seq::<char>::empty());
        assert(d2.current =~= text_of_runs(runs));
        assert(d1.paragraphs == so_far(doc));
        assert(so_far(d2) + filled_paragraphs(less) =~= so_far(doc) + filled_paragraphs(
            paragraphs,
        ));
    }
}

/// The text of a document is that of its paragraphs, one on each line: a paragraph is the
/// texts of all its text elements one after another, whatever markup stands around them,
/// and one without any text is left out.
pub proof fn documents_are_their_paragraphs(paragraphs: Seq<Seq<RunEvents>>)
    requires
        forall|i: int| 0 <= i < paragraphs.len() ==> are_runs(#[trigger] paragraphs[i]),
    ensures
        events_text(empty_document(), document_events(paragraphs)) == Ok::<
            Seq<char>,
            DocxErrorView,
        >(
            if filled_paragraphs(paragraphs).len() == 0 {
                "(no text content found in DOCX)"@
            } else {
                joined(filled_paragraphs(paragraphs), "\n"@)
            },
        ),
{
    lemma_document(empty_document(), paragraphs);
    assert(so_far(empty_document()) + filled_paragraphs(paragraphs) =~= filled_paragraphs(
        paragraphs,
    ));
}

/// A document that cannot be read on has no text, for the reason that was given first.
pub proof fn broken_documents_have_no_text(
    doc: DocxTextView,
    markup: Seq<XmlEventView>,
    reason: Seq<char>,
    rest: Seq<XmlEventView>,
)
    requires
        !doc.in_text,
        all_markup(markup),
    ensures
        events_text(doc, markup + (seq![XmlEventView::Broken { reason }] + rest)) == Err::<
            Seq<char>,
            DocxErrorView,
        >(DocxErrorView::Xml { reason }),
{
    lemma_markup(doc, markup, seq![XmlEventView::Broken { reason }] + rest);
    assert((seq![XmlEventView::Broken { reason }] + rest)[0] == (XmlEventView::Broken { reason }));
}

/// An error says what is wrong with the file, and why.
pub proof fn errors_say_what_is_wrong(path: Seq<char>, reason: Seq<char>)
    ensures
        docx_error_text(DocxErrorView::NotZip { path, reason }) == "failed to open DOCX as ZIP: "@
            + (path + ": "@ + reason),
        docx_error_text(DocxErrorView::NoDocument { reason })
            == "DOCX missing word/document.xml — not a valid .docx file?: "@ + reason,
        docx_error_text(DocxErrorView::Unreadable { reason })
            == "failed to read word/document.xml: "@ + reason,
        docx_error_text(DocxErrorView::Xml { reason }) == "XML parse error in DOCX: "@ + reason,
{
    assert("failed to open DOCX as ZIP: "@ + path + ": "@ + reason
        =~= "failed to open DOCX as ZIP: "@ + (path + ": "@ + reason));
}

/// A file gives the text of its document; one that is no archive, or has no document, or one
/// that cannot be read, is an error of its own with its own reason.
pub proof fn files_give_the_text_of_their_document(
    path: Seq<char>,
    text: Seq<char>,
    reason: Seq<char>,
    read: spec_fn(Seq<char>) -> Result<Seq<char>, DocxErrorView>,
)
    ensures
        entry_text(path, ZipEntryView::Text { text }, read) == read(text),
        entry_text(path, ZipEntryView::NotZip { reason }, read) == Err::<
            Seq<char>,
            DocxErrorView,
        >(DocxErrorView::NotZip { path, reason }),
        entry_text(path, ZipEntryView::Missing { reason }, read) == Err::<
            Seq<char>,
            DocxErrorView,
        >(DocxErrorView::NoDocument { reason }),
        entry_text(path, ZipEntryView::Unreadable { reason }, read) == Err::<
            Seq<char>,
            DocxErrorView,
        >(DocxErrorView::Unreadable { reason }),
        entry_text(path, ZipEntryView::Locked, read) is Err,
        entry_text(path, ZipEntryView::Locked, read)->Err_0 is NoDocument,
{
}

/// A paragraph begins at its tag, wherever that stands: what was read before goes to the
/// finished paragraphs, and an end of the events ends the last one.
pub proof fn paragraphs_end_where_others_begin(doc: DocxTextView, rest: Seq<XmlEventView>)
    ensures
        ({
            let after = after_event(doc, opening(112));
            &&& after.current.len() == 0
            &&& doc.current.len() > 0 ==> after.paragraphs == doc.paragraphs.push(doc.current)
            &&& doc.current.len() == 0 ==> after.paragraphs == doc.paragraphs
            &&& after.in_text == doc.in_text
        }),
        after_event(doc, opening(116)).in_text,
        after_event(doc, opening(116)).current == doc.current,
        after_event(doc, opening(116)).paragraphs == doc.paragraphs,
        !after_event(doc, closing(116)).in_text,
        after_event(doc, closing(116)).current == doc.current,
        after_event(doc, closing(116)).paragraphs == doc.paragraphs,
        events_text(doc, seq![XmlEventView::Eof] + rest) == events_text(doc, Seq::empty()),
{
    assert(seq![112u8] != seq![116u8]) by {
        assert(seq![116u8][0] != seq![112u8][0]);
    }
    assert((seq![XmlEventView::Eof] + rest)[0] is Eof);
}

} // verus!
