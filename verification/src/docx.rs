//! The text of Word files.
//!
//! A Word file is a ZIP archive; its text stands in `word/document.xml`, in `<w:t>`
//! elements inside `<w:p>` paragraphs.
use quick_xml::events::Event;
use quick_xml::Reader;
use vstd::prelude::*;
use crate::text::{join, joined, lemma_views_push, opt_view, owned, to_chars, views};

verus! {

/// An event of an XML document, as far as text extraction uses it.
#[derive(Debug, PartialEq, Eq)]
pub enum XmlEvent {
    /// An opening tag, by its name without the prefix.
    Start { name: Vec<u8> },
    /// A closing tag, by its name without the prefix.
    End { name: Vec<u8> },
    /// A text with its references resolved, none where they cannot be.
    Text { text: Option<String> },
    /// A closing tag that does not match the opening one.
    Mismatch,
    /// The document cannot be read on.
    Broken { reason: String },
    /// Anything else.
    Other,
    /// The end.
    Eof,
}

/// The value of a `XmlEvent`.
pub enum XmlEventView {
    Start { name: Seq<u8> },
    End { name: Seq<u8> },
    Text { text: Option<Seq<char>> },
    Mismatch,
    Broken { reason: Seq<char> },
    Other,
    Eof,
}

impl View for XmlEvent {
    type V = XmlEventView;

    open spec fn view(&self) -> XmlEventView {
        match self {
            XmlEvent::Start { name } => XmlEventView::Start {
                name: name@,
            },
            XmlEvent::End { name } => XmlEventView::End {
                name: name@,
            },
            XmlEvent::Text { text } => XmlEventView::Text {
                text: opt_view(*text),
            },
            XmlEvent::Mismatch => XmlEventView::Mismatch,
            XmlEvent::Broken { reason } => XmlEventView::Broken {
                reason: reason@,
            },
            XmlEvent::Other => XmlEventView::Other,
            XmlEvent::Eof => XmlEventView::Eof,
        }
    }
}

/// What was found of an entry of a ZIP archive.
#[derive(Debug, PartialEq, Eq)]
pub enum ZipEntry {
    /// The bytes are no archive.
    NotZip { reason: String },
    /// The archive has no such entry.
    Missing { reason: String },
    /// The entry is locked by a password.
    Locked,
    /// The entry is no text.
    Unreadable { reason: String },
    Text { text: String },
}

/// The value of a `ZipEntry`.
pub enum ZipEntryView {
    NotZip { reason: Seq<char> },
    Missing { reason: Seq<char> },
    Locked,
    Unreadable { reason: Seq<char> },
    Text { text: Seq<char> },
}

impl View for ZipEntry {
    type V = ZipEntryView;

    open spec fn view(&self) -> ZipEntryView {
        match self {
            ZipEntry::NotZip { reason } => ZipEntryView::NotZip {
                reason: reason@,
            },
            ZipEntry::Missing { reason } => ZipEntryView::Missing {
                reason: reason@,
            },
            ZipEntry::Locked => ZipEntryView::Locked,
            ZipEntry::Unreadable { reason } => ZipEntryView::Unreadable {
                reason: reason@,
            },
            ZipEntry::Text { text } => ZipEntryView::Text {
                text: text@,
            },
        }
    }
}

/// Why a Word file has no text.
#[derive(Debug, PartialEq, Eq)]
pub enum DocxError {
    NotZip { path: String, reason: String },
    NoDocument { reason: String },
    Unreadable { reason: String },
    Xml { reason: String },
}

/// The value of a `DocxError`.
pub enum DocxErrorView {
    NotZip { path: Seq<char>, reason: Seq<char> },
    NoDocument { reason: Seq<char> },
    Unreadable { reason: Seq<char> },
    Xml { reason: Seq<char> },
}

impl View for DocxError {
    type V = DocxErrorView;

    open spec fn view(&self) -> DocxErrorView {
        match self {
            DocxError::NotZip { path, reason } => DocxErrorView::NotZip {
                path: path@,
                reason: reason@,
            },
            DocxError::NoDocument { reason } => DocxErrorView::NoDocument {
                reason: reason@,
            },
            DocxError::Unreadable { reason } => DocxErrorView::Unreadable {
                reason: reason@,
            },
            DocxError::Xml { reason } => DocxErrorView::Xml {
                reason: reason@,
            },
        }
    }
}

/// A pull parser over a text.
#[verifier::external_type_specification]
#[verifier::external_body]
#[verifier::reject_recursive_types(R)]
pub struct ExReader<R>(quick_xml::Reader<R>);

/// The events that `quick_xml` reads from a text, without the end.
pub uninterp spec fn xml_events(text: Seq<char>) -> Seq<XmlEventView>;

/// The events that a parser has still to read, without the end.
pub uninterp spec fn events_left(reader: quick_xml::Reader<&[u8]>) -> Seq<XmlEventView>;

/// What `zip` reads of an entry of an archive.
pub uninterp spec fn zip_entry(bytes: Seq<u8>, name: Seq<char>) -> ZipEntryView;

/// `quick_xml::Reader::from_str`: a parser that has the events of the text before it.
#[verifier::external_body]
fn open_xml(text: &str) -> (r: Reader<&[u8]>)
    ensures
        events_left(r) == xml_events(text@),
{
    Reader::from_str(text)
}

/// `quick_xml::Reader::read_event`: the events one after another, and from then on the
/// end. Each event is given by its kind, with its local name or its unescaped text; an
/// error is an event too, and after it there is only the end.
#[verifier::external_body]
fn read_event(reader: &mut Reader<&[u8]>) -> (r: XmlEvent)
    ensures
        events_left(*old(reader)).len() > 0 ==> r@ == events_left(*old(reader))[0]
            && events_left(*final(reader)) == events_left(*old(reader)).drop_first(),
        events_left(*old(reader)).len() == 0 ==> r is Eof && events_left(*final(reader)).len() == 0,
{
    match reader.read_event() {
        Ok(Event::Start(e)) => XmlEvent::Start { name: e.local_name().as_ref().to_vec() },
        Ok(Event::End(e)) => XmlEvent::End { name: e.local_name().as_ref().to_vec() },
        Ok(Event::Text(e)) => XmlEvent::Text { text: e.unescape().ok().map(|t| t.into_owned()) },
        Ok(Event::Eof) => XmlEvent::Eof,
        Ok(_) => XmlEvent::Other,
        Err(quick_xml::Error::EndEventMismatch { .. }) => XmlEvent::Mismatch,
        Err(e) => XmlEvent::Broken { reason: e.to_string() },
    }
}

/// `zip::ZipArchive::new`, `by_name_decrypt`, `by_name` and reading to the end: the text of an
/// entry, or which of them refused. `by_name` panics on an entry that is marked as AES
/// encrypted without being flagged as encrypted; `by_name_decrypt`, asked first and with an
/// empty password, hands `InvalidPassword` back for it, as it does for most entries that
/// are encrypted. What the bytes of an archive mean is left to `zip`.
#[verifier::external_body]
fn read_zip_entry(bytes: &[u8], name: &str) -> (r: ZipEntry)
    ensures
        r@ == zip_entry(bytes@, name@),
{
    let mut archive = match zip::ZipArchive::new(std::io::Cursor::new(bytes)) {
        Ok(archive) => archive,
        Err(e) => return ZipEntry::NotZip { reason: e.to_string() },
    };
    if let Ok(Err(zip::result::InvalidPassword)) = archive.by_name_decrypt(name, &[]) {
        return ZipEntry::Locked;
    }
    let file = match archive.by_name(name) {
        Ok(file) => file,
        Err(e) => return ZipEntry::Missing { reason: e.to_string() },
    };
    match std::io::read_to_string(file) {
        Ok(text) => ZipEntry::Text { text },
        Err(e) => ZipEntry::Unreadable { reason: e.to_string() },
    }
}

/// The text of a document while its events are read: the complete paragraphs, the one
/// being read, and whether a text belongs to the document.
#[derive(Debug)]
pub struct DocxText {
    paragraphs: Vec<String>,
    current: String,
    in_text: bool,
}

/// The value of a `DocxText`.
pub struct DocxTextView {
    pub paragraphs: Seq<Seq<char>>,
    pub current: Seq<char>,
    pub in_text: bool,
}

impl View for DocxText {
    type V = DocxTextView;

    closed spec fn view(&self) -> DocxTextView {
        DocxTextView {
            paragraphs: views(self.paragraphs@),
            current: self.current@,
            in_text: self.in_text,
        }
    }
}

/// The local name of the element that holds text.
pub open spec fn text_tag() -> Seq<u8> {
    seq![116u8]
}

/// The local name of the element that is a paragraph.
pub open spec fn paragraph_tag() -> Seq<u8> {
    seq![112u8]
}

/// The text once one more event was read: texts inside a text element belong to the
/// paragraph, and a paragraph element starts a new one.
pub open spec fn after_event(doc: DocxTextView, event: XmlEventView) -> DocxTextView {
    match event {
        XmlEventView::Start { name } => {
            let flush = name == paragraph_tag() && doc.current.len() > 0;
            DocxTextView {
                paragraphs: if flush {
                    doc.paragraphs.push(doc.current)
                } else {
                    doc.paragraphs
                },
                current: if flush {
                    Seq::empty()
                } else {
                    doc.current
                },
                in_text: doc.in_text || name == text_tag(),
            }
        },
        XmlEventView::End { name } => DocxTextView {
            in_text: doc.in_text && name != text_tag(),
            ..doc
        },
        XmlEventView::Text { text } => if doc.in_text && text is Some {
            DocxTextView { current: doc.current + text->0, ..doc }
        } else {
            doc
        },
        _ => doc,
    }
}

/// The text once all events were read.
pub open spec fn whole_text(doc: DocxTextView) -> Seq<char> {
    let all = if doc.current.len() > 0 {
        doc.paragraphs.push(doc.current)
    } else {
        doc.paragraphs
    };
    if all.len() == 0 {
        "(no text content found in DOCX)"@
    } else {
        joined(all, "\n"@)
    }
}

/// What the events of a document give, from a state on.
pub open spec fn events_text(doc: DocxTextView, events: Seq<XmlEventView>) -> Result<
    Seq<char>,
    DocxErrorView,
>
    decreases events.len(),
{
    if events.len() == 0 || events[0] is Eof {
        Ok(whole_text(doc))
    } else {
        match events[0] {
            XmlEventView::Broken { reason } => Err(DocxErrorView::Xml { reason }),
            _ => events_text(after_event(doc, events[0]), events.drop_first()),
        }
    }
}

/// The state before any event.
pub open spec fn empty_document() -> DocxTextView {
    DocxTextView { paragraphs: Seq::empty(), current: Seq::empty(), in_text: false }
}

/// The value of a result that is a text.
pub open spec fn docx_result(r: Result<String, DocxError>) -> Result<Seq<char>, DocxErrorView> {
    match r {
        Ok(x) => Ok(x@),
        Err(e) => Err(e@),
    }
}

fn is_tag(name: &Vec<u8>, letter: u8) -> (r: bool)
    ensures
        r == (name@ == seq![letter]),
{
    if name.len() == 1 && name[0] == letter {
        proof {
            assert(name@ =~= seq![letter]);
        }
        true
    } else {
        proof {
            if name@ == seq![letter] {
                assert(name@.len() == 1 && name@[0] == letter);
            }
        }
        false
    }
}

impl DocxText {
    /// The state before any event.
    pub fn new() -> (r: Self)
        ensures
            r@ == empty_document(),
    {
        let r = DocxText { paragraphs: Vec::new(), current: String::new(), in_text: false };
        proof {
            assert(views(r.paragraphs@) =~= Seq::empty());
        }
        r
    }

    /// Reads one more event.
    pub fn take_event(&mut self, event: &XmlEvent)
        ensures
            final(self)@ == after_event(old(self)@, event@),
    {
        match event {
            XmlEvent::Start { name } => {
                if is_tag(name, 116) {
                    self.in_text = true;
                }
                if is_tag(name, 112) && to_chars(self.current.as_str()).len() > 0 {
                    let done = self.current.clone();
                    proof {
                        lemma_views_push(self.paragraphs@, done);
                    }
                    self.paragraphs.push(done);
                    self.current = String::new();
                }
            },
            XmlEvent::End { name } => {
                if is_tag(name, 116) {
                    self.in_text = false;
                }
            },
            XmlEvent::Text { text } => {
                if self.in_text {
                    match text {
                        Some(t) => {
                            self.current.append(t.as_str());
                        },
                        None => {},
                    }
                }
            },
            _ => {},
        }
    }

    /// The text once all events were read.
    pub fn finish(self) -> (r: String)
        ensures
            r@ == whole_text(self@),
    {
        let mut all = self.paragraphs;
        if to_chars(self.current.as_str()).len() > 0 {
            proof {
                lemma_views_push(all@, self.current);
            }
            all.push(self.current);
        }
        proof {
            assert(views(all@).len() == all@.len());
        }
        if all.len() == 0 {
            return owned("(no text content found in DOCX)");
        }
        join(&all, "\n")
    }
}

/// The text of `word/document.xml`.
pub fn parse_docx_xml(xml: &str) -> (r: Result<String, DocxError>)
    ensures
        docx_result(r) == events_text(empty_document(), xml_events(xml@)),
{
    let mut reader = open_xml(xml);
    let mut doc = DocxText::new();
    loop
        invariant
            events_text(empty_document(), xml_events(xml@)) == events_text(
                doc@,
                events_left(reader),
            ),
        decreases events_left(reader).len(),
    {
        let event = read_event(&mut reader);
        match event {
            XmlEvent::Eof => {
                return Ok(doc.finish());
            },
            XmlEvent::Broken { reason } => {
                return Err(DocxError::Xml { reason });
            },
            _ => {
                doc.take_event(&event);
            },
        }
    }
}

/// Why an entry that is locked by a password cannot be read.
pub const LOCKED: &'static str = "unsupported Zip archive: Password required to decrypt file";

/// The text that an entry of a Word file gives.
pub open spec fn entry_text(
    path: Seq<char>,
    entry: ZipEntryView,
    read: spec_fn(Seq<char>) -> Result<Seq<char>, DocxErrorView>,
) -> Result<Seq<char>, DocxErrorView> {
    match entry {
        ZipEntryView::NotZip { reason } => Err(DocxErrorView::NotZip { path, reason }),
        ZipEntryView::Missing { reason } => Err(DocxErrorView::NoDocument { reason }),
        ZipEntryView::Locked => Err(DocxErrorView::NoDocument { reason: LOCKED@ }),
        ZipEntryView::Unreadable { reason } => Err(DocxErrorView::Unreadable { reason }),
        ZipEntryView::Text { text } => read(text),
    }
}

/// The text that the document entry of a Word file gives.
pub fn text_of_entry(path: &str, entry: ZipEntry) -> (r: Result<String, DocxError>)
    ensures
        docx_result(r) == entry_text(
            path@,
            entry@,
            |text: Seq<char>| events_text(empty_document(), xml_events(text)),
        ),
{
    match entry {
        ZipEntry::NotZip { reason } => Err(DocxError::NotZip { path: owned(path), reason }),
        ZipEntry::Missing { reason } => Err(DocxError::NoDocument { reason }),
        ZipEntry::Locked => Err(DocxError::NoDocument { reason: owned(LOCKED) }),
        ZipEntry::Unreadable { reason } => Err(DocxError::Unreadable { reason }),
        ZipEntry::Text { text } => parse_docx_xml(text.as_str()),
    }
}

/// The text of a Word file, given by its bytes.
pub fn extract_docx_text(path: &str, bytes: &[u8]) -> (r: Result<String, DocxError>)
    ensures
        docx_result(r) == entry_text(
            path@,
            zip_entry(bytes@, "word/document.xml"@),
            |text: Seq<char>| events_text(empty_document(), xml_events(text)),
        ),
{
    text_of_entry(path, read_zip_entry(bytes, "word/document.xml"))
}

/// The text of a `DocxError`.
pub open spec fn docx_error_text(e: DocxErrorView) -> Seq<char> {
    match e {
        DocxErrorView::NotZip { path, reason } => "failed to open DOCX as ZIP: "@ + path + ": "@
            + reason,
        DocxErrorView::NoDocument {
            reason,
        } => "DOCX missing word/document.xml — not a valid .docx file?: "@ + reason,
        DocxErrorView::Unreadable { reason } => "failed to read word/document.xml: "@ + reason,
        DocxErrorView::Xml { reason } => "XML parse error in DOCX: "@ + reason,
    }
}

impl DocxError {
    /// The text of the error.
    pub fn message(&self) -> (r: String)
        ensures
            r@ == docx_error_text(self@),
    {
        match self {
            DocxError::NotZip { path, reason } => owned("failed to open DOCX as ZIP: ").concat(
                path.as_str(),
            ).concat(": ").concat(reason.as_str()),
            DocxError::NoDocument { reason } => owned(
                "DOCX missing word/document.xml — not a valid .docx file?: ",
            ).concat(reason.as_str()),
            DocxError::Unreadable { reason } => owned("failed to read word/document.xml: ").concat(
                reason.as_str(),
            ),
            DocxError::Xml { reason } => owned("XML parse error in DOCX: ").concat(
                reason.as_str(),
            ),
        }
    }
}

/// Whether the paragraphs of a document are all non-empty.
pub open spec fn no_empty_paragraph(doc: DocxTextView) -> bool {
    forall|i: int| 0 <= i < doc.paragraphs.len() ==> (#[trigger] doc.paragraphs[i]).len() > 0
}

/// No event makes an empty paragraph, and only a text inside a text element adds to the text.
pub proof fn only_text_elements_add_text(doc: DocxTextView, event: XmlEventView)
    requires
        no_empty_paragraph(doc),
    ensures
        no_empty_paragraph(after_event(doc, event)),
        !(doc.in_text && event is Text) ==> after_event(doc, event).current == doc.current
            || after_event(doc, event).paragraphs == doc.paragraphs.push(doc.current)
            && after_event(doc, event).current.len() == 0,
{
}

} // verus!
