//! XML documents written by `quick_xml`: the events a feed is made of, and
//! the writer that turns them into indented text. The writer only fails when
//! the buffer under it does, and an in-memory buffer does not fail; the text
//! of events made of strings is UTF-8.
use vstd::prelude::*;

verus! {

#[verifier::external_type_specification]
#[verifier::external_body]
#[verifier::reject_recursive_types(W)]
pub struct ExXmlWriter<W>(quick_xml::Writer<W>);

#[verifier::external_type_specification]
#[verifier::external_body]
#[verifier::reject_recursive_types(T)]
pub struct ExCursor<T>(std::io::Cursor<T>);

/// One XML event, as plain values.
pub enum XmlNode {
    /// `<?xml version=".." encoding=".."?>`
    Decl(Seq<char>, Seq<char>),
    /// A start tag with its attributes (names and unescaped values).
    Start(Seq<char>, Seq<(Seq<char>, Seq<char>)>),
    /// An empty-element tag with its attributes.
    Empty(Seq<char>, Seq<(Seq<char>, Seq<char>)>),
    /// Character data, unescaped.
    Text(Seq<char>),
    /// A CDATA section, written as is.
    CData(Seq<char>),
    /// An end tag.
    End(Seq<char>),
}

/// One XML event of a document being built.
pub enum XmlEvent {
    Decl(String, String),
    Start(String, Vec<(String, String)>),
    Empty(String, Vec<(String, String)>),
    Text(String),
    CData(String),
    End(String),
}

pub open spec fn attrs_view(a: Seq<(String, String)>) -> Seq<(Seq<char>, Seq<char>)> {
    a.map_values(|p: (String, String)| (p.0@, p.1@))
}

impl View for XmlEvent {
    type V = XmlNode;

    open spec fn view(&self) -> XmlNode {
        match self {
            XmlEvent::Decl(v, e) => XmlNode::Decl(v@, e@),
            XmlEvent::Start(t, a) => XmlNode::Start(t@, attrs_view(a@)),
            XmlEvent::Empty(t, a) => XmlNode::Empty(t@, attrs_view(a@)),
            XmlEvent::Text(t) => XmlNode::Text(t@),
            XmlEvent::CData(t) => XmlNode::CData(t@),
            XmlEvent::End(t) => XmlNode::End(t@),
        }
    }
}

pub open spec fn events_view(e: Seq<XmlEvent>) -> Seq<XmlNode> {
    e.map_values(|x: XmlEvent| x@)
}

/// The events written so far to a `quick_xml::Writer` over an in-memory
/// buffer.
pub uninterp spec fn xml_written(w: quick_xml::Writer<std::io::Cursor<Vec<u8>>>) -> Seq<XmlNode>;

/// The indentation a writer was made with: the character and how many of
/// them per level.
pub uninterp spec fn xml_writer_indent(w: quick_xml::Writer<std::io::Cursor<Vec<u8>>>) -> (u8, usize);

/// The text `quick_xml` produces for these events with this indentation.
pub uninterp spec fn xml_document(indent: (u8, usize), events: Seq<XmlNode>) -> Seq<char>;

/// `Writer::new_with_indent` over an empty `Cursor<Vec<u8>>`.
#[verifier::external_body]
fn xml_writer(indent_char: u8, indent_size: usize) -> (w: quick_xml::Writer<std::io::Cursor<Vec<u8>>>)
    ensures
        xml_written(w) == Seq::<XmlNode>::empty(),
        xml_writer_indent(w) == (indent_char, indent_size),
{
    quick_xml::Writer::new_with_indent(std::io::Cursor::new(Vec::new()), indent_char, indent_size)
}

/// `write_event(Event::Decl(BytesDecl::new(version, Some(encoding), None)))`.
#[verifier::external_body]
fn write_decl(w: &mut quick_xml::Writer<std::io::Cursor<Vec<u8>>>, version: &str, encoding: &str) -> (r: Result<(), String>)
    ensures
        xml_writer_indent(*final(w)) == xml_writer_indent(*old(w)),
        r is Ok,
        xml_written(*final(w)) == xml_written(*old(w)).push(XmlNode::Decl(version@, encoding@)),
{
    w.write_event(quick_xml::events::Event::Decl(quick_xml::events::BytesDecl::new(version, Some(encoding), None))).map_err(|e| e.to_string())
}

/// `write_event(Event::Start(..))` of a tag with attributes.
#[verifier::external_body]
pub(crate) fn write_start(w: &mut quick_xml::Writer<std::io::Cursor<Vec<u8>>>, tag: &str, attrs: &Vec<(String, String)>) -> (r: Result<(), String>)
    ensures
        xml_writer_indent(*final(w)) == xml_writer_indent(*old(w)),
        r is Ok,
        xml_written(*final(w)) == xml_written(*old(w)).push(XmlNode::Start(tag@, attrs_view(attrs@))),
{
    let el = quick_xml::events::BytesStart::new(tag).with_attributes(attrs.iter().map(|(k, v)| (k.as_str(), v.as_str())));
    w.write_event(quick_xml::events::Event::Start(el)).map_err(|e| e.to_string())
}

/// `write_event(Event::Empty(..))` of a tag with attributes.
#[verifier::external_body]
fn write_empty(w: &mut quick_xml::Writer<std::io::Cursor<Vec<u8>>>, tag: &str, attrs: &Vec<(String, String)>) -> (r: Result<(), String>)
    ensures
        xml_writer_indent(*final(w)) == xml_writer_indent(*old(w)),
        r is Ok,
        xml_written(*final(w)) == xml_written(*old(w)).push(XmlNode::Empty(tag@, attrs_view(attrs@))),
{
    let el = quick_xml::events::BytesStart::new(tag).with_attributes(attrs.iter().map(|(k, v)| (k.as_str(), v.as_str())));
    w.write_event(quick_xml::events::Event::Empty(el)).map_err(|e| e.to_string())
}

/// `write_event(Event::Text(BytesText::new(text)))`.
#[verifier::external_body]
pub(crate) fn write_text(w: &mut quick_xml::Writer<std::io::Cursor<Vec<u8>>>, text: &str) -> (r: Result<(), String>)
    ensures
        xml_writer_indent(*final(w)) == xml_writer_indent(*old(w)),
        r is Ok,
        xml_written(*final(w)) == xml_written(*old(w)).push(XmlNode::Text(text@)),
{
    w.write_event(quick_xml::events::Event::Text(quick_xml::events::BytesText::new(text))).map_err(|e| e.to_string())
}

/// `write_event(Event::CData(BytesCData::new(text)))`.
#[verifier::external_body]
pub(crate) fn write_cdata(w: &mut quick_xml::Writer<std::io::Cursor<Vec<u8>>>, text: &str) -> (r: Result<(), String>)
    ensures
        xml_writer_indent(*final(w)) == xml_writer_indent(*old(w)),
        r is Ok,
        xml_written(*final(w)) == xml_written(*old(w)).push(XmlNode::CData(text@)),
{
    w.write_event(quick_xml::events::Event::CData(quick_xml::events::BytesCData::new(text))).map_err(|e| e.to_string())
}

/// `write_event(Event::End(BytesEnd::new(tag)))`.
#[verifier::external_body]
pub(crate) fn write_end(w: &mut quick_xml::Writer<std::io::Cursor<Vec<u8>>>, tag: &str) -> (r: Result<(), String>)
    ensures
        xml_writer_indent(*final(w)) == xml_writer_indent(*old(w)),
        r is Ok,
        xml_written(*final(w)) == xml_written(*old(w)).push(XmlNode::End(tag@)),
{
    w.write_event(quick_xml::events::Event::End(quick_xml::events::BytesEnd::new(tag))).map_err(|e| e.to_string())
}

/// The written bytes (`into_inner().into_inner()`), as a UTF-8 string: the
/// events are strings and the indentation an ASCII character, so the bytes
/// are UTF-8.
#[verifier::external_body]
fn finish(w: quick_xml::Writer<std::io::Cursor<Vec<u8>>>) -> (r: Result<String, String>)
    requires
        xml_writer_indent(w).0 < 128,
    ensures
        r is Ok,
        r matches Ok(s) ==> s@ == xml_document(xml_writer_indent(w), xml_written(w)),
{
    String::from_utf8(w.into_inner().into_inner()).map_err(|e| e.to_string())
}

/// The indentation of feed documents: two spaces per level.
pub open spec fn feed_indent() -> (u8, usize) {
    (32u8, 2usize)
}

/// Writes the events, in order, as an indented document.
pub fn write_document(events: &Vec<XmlEvent>) -> (r: Result<String, String>)
    ensures
        r is Ok,
        r matches Ok(s) ==> s@ == xml_document(feed_indent(), events_view(events@)),
{
    let mut w = xml_writer(32u8, 2usize);
    let mut i: usize = 0;
    while i < events.len()
        invariant
            i <= events.len(),
            xml_writer_indent(w) == feed_indent(),
            xml_written(w) == events_view(events@.take(i as int)),
        decreases events.len() - i,
    {
        let res = match &events[i] {
            XmlEvent::Decl(v, e) => write_decl(&mut w, v.as_str(), e.as_str()),
            XmlEvent::Start(t, a) => write_start(&mut w, t.as_str(), a),
            XmlEvent::Empty(t, a) => write_empty(&mut w, t.as_str(), a),
            XmlEvent::Text(t) => write_text(&mut w, t.as_str()),
            XmlEvent::CData(t) => write_cdata(&mut w, t.as_str()),
            XmlEvent::End(t) => write_end(&mut w, t.as_str()),
        };
        match res {
            Ok(()) => {},
            Err(e) => return Err(e),
        }
        assert(events_view(events@.take(i + 1)) =~= events_view(events@.take(i as int)).push(events@[i as int]@));
        i = i + 1;
    }
    assert(events@.take(events.len() as int) =~= events@);
    finish(w)
}

// ---------------------------------------------------------------------------
// Building event sequences
// ---------------------------------------------------------------------------

/// `<tag attrs>inner</tag>`.
pub open spec fn element(tag: Seq<char>, attrs: Seq<(Seq<char>, Seq<char>)>, inner: Seq<XmlNode>) -> Seq<XmlNode> {
    seq![XmlNode::Start(tag, attrs)] + inner + seq![XmlNode::End(tag)]
}

/// `<tag>text</tag>`.
pub open spec fn text_element(tag: Seq<char>, text: Seq<char>) -> Seq<XmlNode> {
    seq![XmlNode::Start(tag, Seq::empty()), XmlNode::Text(text), XmlNode::End(tag)]
}

/// `<tag><![CDATA[text]]></tag>`.
pub open spec fn cdata_element(tag: Seq<char>, text: Seq<char>) -> Seq<XmlNode> {
    seq![XmlNode::Start(tag, Seq::empty()), XmlNode::CData(text), XmlNode::End(tag)]
}

/// A name-value attribute pair.
pub fn attr(name: &str, value: &str) -> (a: (String, String))
    ensures
        a.0@ == name@,
        a.1@ == value@,
{
    (String::from_str(name), String::from_str(value))
}

pub fn push_event(evs: &mut Vec<XmlEvent>, e: XmlEvent)
    ensures
        events_view(final(evs)@) == events_view(old(evs)@).push(e@),
{
    evs.push(e);
    assert(events_view(evs@) =~= events_view(old(evs)@).push(e@));
}

pub fn push_start(evs: &mut Vec<XmlEvent>, tag: &str, attrs: Vec<(String, String)>)
    ensures
        events_view(final(evs)@) == events_view(old(evs)@).push(XmlNode::Start(tag@, attrs_view(attrs@))),
{
    push_event(evs, XmlEvent::Start(String::from_str(tag), attrs));
}

pub fn push_empty(evs: &mut Vec<XmlEvent>, tag: &str, attrs: Vec<(String, String)>)
    ensures
        events_view(final(evs)@) == events_view(old(evs)@).push(XmlNode::Empty(tag@, attrs_view(attrs@))),
{
    push_event(evs, XmlEvent::Empty(String::from_str(tag), attrs));
}

pub fn push_end(evs: &mut Vec<XmlEvent>, tag: &str)
    ensures
        events_view(final(evs)@) == events_view(old(evs)@).push(XmlNode::End(tag@)),
{
    push_event(evs, XmlEvent::End(String::from_str(tag)));
}

pub fn push_text_element(evs: &mut Vec<XmlEvent>, tag: &str, text: &str)
    ensures
        events_view(final(evs)@) == events_view(old(evs)@) + text_element(tag@, text@),
{
    push_event(evs, XmlEvent::Start(String::from_str(tag), Vec::new()));
    push_event(evs, XmlEvent::Text(String::from_str(text)));
    push_event(evs, XmlEvent::End(String::from_str(tag)));
    assert(attrs_view(Seq::<(String, String)>::empty()) =~= Seq::<(Seq<char>, Seq<char>)>::empty());
    assert(events_view(evs@) =~= events_view(old(evs)@) + text_element(tag@, text@));
}

pub fn push_cdata_element(evs: &mut Vec<XmlEvent>, tag: &str, text: &str)
    ensures
        events_view(final(evs)@) == events_view(old(evs)@) + cdata_element(tag@, text@),
{
    push_event(evs, XmlEvent::Start(String::from_str(tag), Vec::new()));
    push_event(evs, XmlEvent::CData(String::from_str(text)));
    push_event(evs, XmlEvent::End(String::from_str(tag)));
    assert(attrs_view(Seq::<(String, String)>::empty()) =~= Seq::<(Seq<char>, Seq<char>)>::empty());
    assert(events_view(evs@) =~= events_view(old(evs)@) + cdata_element(tag@, text@));
}

// ---------------------------------------------------------------------------
// Nesting
// ---------------------------------------------------------------------------

/// The elements still open after the events, starting with `open` (the
/// innermost last); `None` when an end tag does not close the innermost open
/// element.
#[verifier::opaque]
pub open spec fn open_after(open: Seq<Seq<char>>, events: Seq<XmlNode>) -> Option<Seq<Seq<char>>>
    decreases events.len(),
{
    if events.len() == 0 {
        Some(open)
    } else {
        match open_after(open, events.drop_last()) {
            None => None,
            Some(st) => match events.last() {
                XmlNode::Start(t, _) => Some(st.push(t)),
                XmlNode::End(t) => if st.len() > 0 && st.last() == t {
                    Some(st.drop_last())
                } else {
                    None
                },
                _ => Some(st),
            },
        }
    }
}

/// Every start tag is closed by its own end tag, in order, and nothing is
/// closed that was not opened.
pub open spec fn well_nested(events: Seq<XmlNode>) -> bool {
    open_after(Seq::empty(), events) == Some(Seq::<Seq<char>>::empty())
}

/// The events leave whatever is open as it was: they are whole elements.
#[verifier::opaque]
pub open spec fn neutral(events: Seq<XmlNode>) -> bool {
    forall|st: Seq<Seq<char>>| #[trigger] open_after(st, events) == Some(st)
}

/// Running two event sequences one after the other.
pub proof fn lemma_open_after_concat(st: Seq<Seq<char>>, a: Seq<XmlNode>, b: Seq<XmlNode>)
    ensures
        open_after(st, a + b) == match open_after(st, a) {
            Some(s2) => open_after(s2, b),
            None => None,
        },
    decreases b.len(),
{
    reveal(open_after);
    if b.len() == 0 {
        assert(a + b =~= a);
    } else {
        lemma_open_after_concat(st, a, b.drop_last());
        assert((a + b).drop_last() =~= a + b.drop_last());
        assert((a + b).last() == b.last());
    }
}

/// Whole elements one after the other are whole elements.
pub proof fn lemma_neutral_concat(a: Seq<XmlNode>, b: Seq<XmlNode>)
    requires
        neutral(a),
        neutral(b),
    ensures
        neutral(a + b),
{
    reveal(neutral);
    assert forall|st: Seq<Seq<char>>| #[trigger] open_after(st, a + b) == Some(st) by {
        lemma_open_after_concat(st, a, b);
        assert(open_after(st, a) == Some(st));
        assert(open_after(st, b) == Some(st));
    }
}

/// Nothing is a whole element sequence.
pub proof fn lemma_neutral_empty()
    ensures
        neutral(Seq::<XmlNode>::empty()),
{
    reveal(open_after);
    reveal(neutral);
    assert forall|st: Seq<Seq<char>>| #[trigger] open_after(st, Seq::<XmlNode>::empty()) == Some(st) by {
    }
}

/// A start tag, whole elements, and the matching end tag make a whole
/// element.
pub proof fn lemma_element_neutral(tag: Seq<char>, attrs: Seq<(Seq<char>, Seq<char>)>, inner: Seq<XmlNode>)
    requires
        neutral(inner),
    ensures
        neutral(element(tag, attrs, inner)),
{
    reveal(open_after);
    reveal(neutral);
    assert forall|st: Seq<Seq<char>>| #[trigger] open_after(st, seq![XmlNode::Start(tag, attrs)] + inner + seq![XmlNode::End(tag)]) == Some(st) by {
        let s1 = seq![XmlNode::Start(tag, attrs)];
        assert(open_after(st, s1.drop_last()) == Some(st));
        assert(open_after(st, s1) == Some(st.push(tag)));
        lemma_open_after_concat(st, s1, inner);
        assert(open_after(st.push(tag), inner) == Some(st.push(tag)));
        lemma_open_after_concat(st, s1 + inner, seq![XmlNode::End(tag)]);
        let e = seq![XmlNode::End(tag)];
        assert(open_after(st.push(tag), e.drop_last()) == Some(st.push(tag)));
        assert(st.push(tag).drop_last() =~= st);
    }
}

/// Character data and CDATA leave the open elements as they are.
pub proof fn lemma_neutral_content(n: XmlNode)
    requires
        n is Text || n is CData || n is Empty,
    ensures
        neutral(seq![n]),
{
    reveal(open_after);
    reveal(neutral);
    assert forall|st: Seq<Seq<char>>| #[trigger] open_after(st, seq![n]) == Some(st) by {
        assert(open_after(st, seq![n].drop_last()) == Some(st));
    }
}

/// `<tag>text</tag>` is a whole element.
pub proof fn lemma_text_element_neutral(tag: Seq<char>, text: Seq<char>)
    ensures
        neutral(text_element(tag, text)),
{
    lemma_neutral_content(XmlNode::Text(text));
    lemma_element_neutral(tag, Seq::empty(), seq![XmlNode::Text(text)]);
    assert(text_element(tag, text) =~= element(tag, Seq::empty(), seq![XmlNode::Text(text)]));
}

/// `<tag><![CDATA[text]]></tag>` is a whole element.
pub proof fn lemma_cdata_element_neutral(tag: Seq<char>, text: Seq<char>)
    ensures
        neutral(cdata_element(tag, text)),
{
    lemma_neutral_content(XmlNode::CData(text));
    lemma_element_neutral(tag, Seq::empty(), seq![XmlNode::CData(text)]);
    assert(cdata_element(tag, text) =~= element(tag, Seq::empty(), seq![XmlNode::CData(text)]));
}

/// A declaration followed by whole elements is a well-nested document.
pub proof fn lemma_declared_document_well_nested(version: Seq<char>, encoding: Seq<char>, doc: Seq<XmlNode>)
    requires
        neutral(doc),
    ensures
        well_nested(seq![XmlNode::Decl(version, encoding)] + doc),
{
    reveal(open_after);
    reveal(neutral);
    let st = Seq::<Seq<char>>::empty();
    let decl = seq![XmlNode::Decl(version, encoding)];
    lemma_open_after_concat(st, decl, doc);
    assert(open_after(st, decl.drop_last()) == Some(st));
    assert(open_after(st, doc) == Some(st));
}

} // verus!
