//! Reading and writing of XML text.

use quick_xml::events::attributes::Attribute;
use quick_xml::events::{BytesStart, BytesText, Event};
use quick_xml::name::QName;
use quick_xml::Reader as PullReader;
use crate::text;
use crate::text::{chars_of, copy, same, split_once};
use vstd::prelude::*;

verus! {

/// One step of an XML document, as the pull parser reports it.
pub enum XmlEvent {
    /// An opening tag: its qualified name, and the raw text between `<` and `>`.
    Start(String, String),
    /// A self-closing tag: its qualified name, and the raw text between `<` and `/>`.
    Empty(String, String),
    /// A closing tag with its qualified name.
    End(String),
    /// Character data, still escaped.
    Text(String),
    /// Comments, declarations, CDATA sections and processing instructions.
    Other,
    /// The end of the document.
    Eof,
    /// The document is not well formed; nothing after it is read.
    Invalid(String),
}

#[verifier::ext_equal]
pub enum XmlEventView {
    Start(Seq<char>, Seq<char>),
    Empty(Seq<char>, Seq<char>),
    End(Seq<char>),
    Text(Seq<char>),
    Other,
    Eof,
    Invalid(Seq<char>),
}

impl DeepView for XmlEvent {
    type V = XmlEventView;

    open spec fn deep_view(&self) -> XmlEventView {
        match self {
            XmlEvent::Start(name, tag) => XmlEventView::Start(name@, tag@),
            XmlEvent::Empty(name, tag) => XmlEventView::Empty(name@, tag@),
            XmlEvent::End(name) => XmlEventView::End(name@),
            XmlEvent::Text(text) => XmlEventView::Text(text@),
            XmlEvent::Other => XmlEventView::Other,
            XmlEvent::Eof => XmlEventView::Eof,
            XmlEvent::Invalid(message) => XmlEventView::Invalid(message@),
        }
    }
}

pub open spec fn is_last(event: XmlEventView) -> bool {
    event is Eof || event is Invalid
}

/// A tag's raw text begins with the tag's name.
pub open spec fn tag_begins_with_name(event: XmlEventView) -> bool {
    match event {
        XmlEventView::Start(name, tag) => name.is_prefix_of(tag),
        XmlEventView::Empty(name, tag) => name.is_prefix_of(tag),
        _ => true,
    }
}

/// The shape of what remains to be read: it ends with the end of the document or with an
/// error, and neither stands before the end.
pub open spec fn is_stream(events: Seq<XmlEventView>) -> bool {
    &&& events.len() > 0
    &&& forall|i: int| 0 <= i < events.len() ==> (is_last(#[trigger] events[i]) <==> i == events.len() - 1)
    &&& forall|i: int| 0 <= i < events.len() ==> tag_begins_with_name(#[trigger] events[i])
}

/// An attribute of a tag: its qualified name and its raw value, or why it cannot be read.
pub enum XmlAttribute {
    Pair(String, String),
    Invalid(String),
}

#[verifier::ext_equal]
pub enum XmlAttributeView {
    Pair(Seq<char>, Seq<char>),
    Invalid(Seq<char>),
}

impl DeepView for XmlAttribute {
    type V = XmlAttributeView;

    open spec fn deep_view(&self) -> XmlAttributeView {
        match self {
            XmlAttribute::Pair(name, value) => XmlAttributeView::Pair(name@, value@),
            XmlAttribute::Invalid(message) => XmlAttributeView::Invalid(message@),
        }
    }
}

/// The pull parser of `quick_xml`.
#[verifier::external_type_specification]
#[verifier::external_body]
#[verifier::reject_recursive_types(R)]
pub struct ExPullReader<R>(PullReader<R>);

/// The events that `quick_xml` reports for a document, up to its end or the first error.
pub uninterp spec fn xml_events(document: Seq<char>, trim_text: bool) -> Seq<XmlEventView>;

/// What a reader has still to report.
pub uninterp spec fn xml_unread(reader: PullReader<&[u8]>) -> Seq<XmlEventView>;

/// The document that a reader was made for, and whether it trims character data.
pub uninterp spec fn xml_source(reader: PullReader<&[u8]>) -> (Seq<char>, bool);

/// What `Reader::read_text` returns when it is called with `unread` events left.
pub uninterp spec fn xml_inner_text(
    document: Seq<char>,
    trim_text: bool,
    unread: nat,
    name: Seq<char>,
) -> Result<Seq<char>, Seq<char>>;

/// What `BytesText::unescape` makes of character data.
pub uninterp spec fn xml_unescaped_text(raw: Seq<char>) -> Option<Seq<char>>;

/// What `Attribute::unescape_value` makes of an attribute's raw value.
pub uninterp spec fn xml_unescaped_value(raw: Seq<char>) -> Option<Seq<char>>;

/// The attributes that `BytesStart::attributes` reports for a tag.
pub uninterp spec fn xml_attributes(tag: Seq<char>, name: Seq<char>) -> Seq<XmlAttributeView>;

/// `quick_xml::Reader::from_str` starts at the first event of the document; `Config::trim_text`
/// sets whether character data is trimmed.
#[verifier::external_body]
pub(crate) fn open_document(document: &str, trim_text: bool) -> (reader: PullReader<&[u8]>)
    ensures
        xml_unread(reader) == xml_events(document@, trim_text),
        xml_source(reader) == (document@, trim_text),
        is_stream(xml_unread(reader)),
{
    let mut reader = PullReader::from_str(document);
    reader.config_mut().trim_text(trim_text);
    reader
}

/// `quick_xml::Reader::read_event` reports the next event. Names and raw texts are slices of the
/// document, so that turning their bytes into text loses nothing.
#[verifier::external_body]
pub(crate) fn read_event(reader: &mut PullReader<&[u8]>) -> (event: XmlEvent)
    requires
        xml_unread(*old(reader)).len() > 0,
    ensures
        event.deep_view() == xml_unread(*old(reader))[0],
        xml_unread(*final(reader)) == xml_unread(*old(reader)).drop_first(),
        xml_source(*final(reader)) == xml_source(*old(reader)),
{
    match reader.read_event() {
        Ok(Event::Start(tag)) => XmlEvent::Start(
            String::from_utf8_lossy(tag.name().as_ref()).into_owned(),
            String::from_utf8_lossy(&tag).into_owned(),
        ),
        Ok(Event::Empty(tag)) => XmlEvent::Empty(
            String::from_utf8_lossy(tag.name().as_ref()).into_owned(),
            String::from_utf8_lossy(&tag).into_owned(),
        ),
        Ok(Event::End(tag)) => XmlEvent::End(String::from_utf8_lossy(tag.name().as_ref()).into_owned()),
        Ok(Event::Text(text)) => XmlEvent::Text(String::from_utf8_lossy(&text).into_owned()),
        Ok(Event::Eof) => XmlEvent::Eof,
        Ok(_) => XmlEvent::Other,
        Err(error) => XmlEvent::Invalid(error.to_string()),
    }
}

/// What is left after the closing tag that belongs to an opening tag `name` just read, where
/// `depth` further elements of that name are open.
pub open spec fn after_end(events: Seq<XmlEventView>, name: Seq<char>, depth: nat) -> Seq<
    XmlEventView,
>
    decreases events.len(),
{
    if events.len() == 0 {
        events
    } else {
        match events[0] {
            XmlEventView::Start(other, _) if other == name => after_end(
                events.drop_first(),
                name,
                depth + 1,
            ),
            XmlEventView::End(other) if other == name => if depth == 0 {
                events.drop_first()
            } else {
                after_end(events.drop_first(), name, (depth - 1) as nat)
            },
            _ => after_end(events.drop_first(), name, depth),
        }
    }
}

/// `quick_xml::Reader::read_text` gives the raw content up to the closing tag of the element
/// `name` whose opening tag was just read. Where character data is not trimmed, reading goes on
/// behind that closing tag. How the reader stands after an error, or after this call where
/// character data is trimmed, is left open.
#[verifier::external_body]
pub(crate) fn read_inner_text(reader: &mut PullReader<&[u8]>, name: &str) -> (r: Result<
    String,
    String,
>)
    requires
        xml_unread(*old(reader)).len() > 0,
    ensures
        text::outcome(r) == xml_inner_text(
            xml_source(*old(reader)).0,
            xml_source(*old(reader)).1,
            xml_unread(*old(reader)).len(),
            name@,
        ),
        r is Ok && !xml_source(*old(reader)).1 ==> xml_unread(*final(reader)) == after_end(
            xml_unread(*old(reader)),
            name@,
            0,
        ) && xml_unread(*final(reader)).len() > 0,
        xml_source(*final(reader)) == xml_source(*old(reader)),
{
    match reader.read_text(QName(name.as_bytes())) {
        Ok(text) => Ok(text.into_owned()),
        Err(error) => Err(error.to_string()),
    }
}

/// `quick_xml::events::BytesText::unescape` replaces the references in character data.
#[verifier::external_body]
pub(crate) fn unescape_text(raw: &str) -> (r: Option<String>)
    ensures
        r.deep_view() == xml_unescaped_text(raw@),
{
    BytesText::from_escaped(raw).unescape().ok().map(|text| text.into_owned())
}

/// `quick_xml::events::attributes::Attribute::unescape_value` replaces the references in an
/// attribute's value.
#[verifier::external_body]
pub(crate) fn unescape_value(raw: &str) -> (r: Option<String>)
    ensures
        r.deep_view() == xml_unescaped_value(raw@),
{
    let attribute = Attribute::from(("".as_bytes(), raw.as_bytes()));
    attribute.unescape_value().ok().map(|text| text.into_owned())
}

/// `quick_xml::events::BytesStart::attributes` lists what stands behind a tag's name.
#[verifier::external_body]
pub(crate) fn attributes_of(tag: &str, name: &str) -> (r: Vec<XmlAttribute>)
    requires
        name@.is_prefix_of(tag@),
    ensures
        r.deep_view() == xml_attributes(tag@, name@),
{
    BytesStart::from_content(tag, name.len())
        .attributes()
        .map(|item| match item {
            Ok(attribute) => XmlAttribute::Pair(
                String::from_utf8_lossy(attribute.key.as_ref()).into_owned(),
                String::from_utf8_lossy(&attribute.value).into_owned(),
            ),
            Err(error) => XmlAttribute::Invalid(error.to_string()),
        })
        .collect()
}

/// The events of a document.
pub fn read_events(document: &str, trim_text: bool) -> (events: Vec<XmlEvent>)
    ensures
        events.deep_view() == xml_events(document@, trim_text),
        is_stream(events.deep_view()),
{
    let mut reader = open_document(document, trim_text);
    let ghost all = xml_unread(reader);
    let mut events: Vec<XmlEvent> = Vec::new();
    assert(events.deep_view() =~= all.take(0));
    assert(all.skip(0) =~= all);
    loop
        invariant_except_break
            is_stream(all),
            events@.len() < all.len(),
            events.deep_view() == all.take(events@.len() as int),
            xml_unread(reader) == all.skip(events@.len() as int),
        ensures
            events.deep_view() == all,
        decreases all.len() - events@.len(),
    {
        let ghost n = events@.len() as int;
        let event = read_event(&mut reader);
        assert(event.deep_view() == all[n]);
        let last = matches!(event, XmlEvent::Eof | XmlEvent::Invalid(_));
        assert(last == is_last(event.deep_view()));
        events.push(event);
        assert(events.deep_view() =~= all.take(n + 1));
        assert(all.skip(n).drop_first() =~= all.skip(n + 1));
        if last {
            assert(all.take(n + 1) =~= all);
            break;
        }
    }
    events
}

/// The part of a qualified name behind its first colon, or all of it.
pub open spec fn local(name: Seq<char>) -> Seq<char> {
    match text::split_first(name, ':') {
        Some((_, local)) => local,
        None => name,
    }
}

/// A qualified name without its prefix.
pub fn local_name(name: &str) -> (r: String)
    ensures
        r@ == local(name@),
{
    match split_once(name, ':') {
        Some((_, local)) => local,
        None => copy(name),
    }
}

/// Whether an XML boolean is true.
pub open spec fn is_true(value: Seq<char>) -> bool {
    value == "true"@ || value == "1"@
}

/// Reads an XML boolean.
pub fn xml_bool(value: &str) -> (r: bool)
    ensures
        r == is_true(value@),
{
    same(value, "true") || same(value, "1")
}

pub open spec fn escape_of(c: char) -> Seq<char> {
    if c == '&' {
        "&amp;"@
    } else if c == '<' {
        "&lt;"@
    } else if c == '>' {
        "&gt;"@
    } else if c == '"' {
        "&quot;"@
    } else if c == '\'' {
        "&apos;"@
    } else {
        seq![c]
    }
}

/// Text with the characters that XML gives a meaning replaced by references.
pub open spec fn escaped(s: Seq<char>) -> Seq<char>
    decreases s.len(),
{
    if s.len() == 0 {
        s
    } else {
        escaped(s.drop_last()) + escape_of(s.last())
    }
}

/// Escapes text for an element or an attribute.
pub fn xml_escape(value: &str) -> (r: String)
    ensures
        r@ == escaped(value@),
{
    let chars = chars_of(value);
    let mut out = String::new();
    let mut i: usize = 0;
    assert(chars@.take(0) =~= out@);
    while i < chars.len()
        invariant
            i <= chars@.len(),
            out@ == escaped(chars@.take(i as int)),
        decreases chars@.len() - i,
    {
        let c = chars[i];
        assert(chars@.take(i + 1).drop_last() =~= chars@.take(i as int));
        if c == '&' {
            out.append("&amp;");
        } else if c == '<' {
            out.append("&lt;");
        } else if c == '>' {
            out.append("&gt;");
        } else if c == '"' {
            out.append("&quot;");
        } else if c == '\'' {
            out.append("&apos;");
        } else {
            let ghost before = out@;
            out.push(c);
            assert(out@ =~= before + seq![c]);
        }
        i = i + 1;
    }
    assert(chars@.take(i as int) =~= value@);
    out
}

/// A character that means something in markup.
pub open spec fn is_markup(c: char) -> bool {
    c == '<' || c == '>' || c == '"' || c == '\''
}

/// An escaped text has no characters that mean something in markup, and so does not end the
/// element or the attribute that it stands in.
pub proof fn escaped_text_has_no_markup(s: Seq<char>, i: int)
    requires
        0 <= i < escaped(s).len(),
    ensures
        !is_markup(escaped(s)[i]),
    decreases s.len(),
{
    let front = escaped(s.drop_last());
    if i < front.len() {
        escaped_text_has_no_markup(s.drop_last(), i);
    } else {
        lemma_escapes();
        assert(escaped(s)[i] == escape_of(s.last())[i - front.len()]);
    }
}

/// What stands for the characters that are replaced.
proof fn lemma_escapes()
    ensures
        "&amp;"@ == seq!['&', 'a', 'm', 'p', ';'],
        "&lt;"@ == seq!['&', 'l', 't', ';'],
        "&gt;"@ == seq!['&', 'g', 't', ';'],
        "&quot;"@ == seq!['&', 'q', 'u', 'o', 't', ';'],
        "&apos;"@ == seq!['&', 'a', 'p', 'o', 's', ';'],
{
    reveal_strlit("&amp;");
    reveal_strlit("&lt;");
    reveal_strlit("&gt;");
    reveal_strlit("&quot;");
    reveal_strlit("&apos;");
    assert("&amp;"@ =~= seq!['&', 'a', 'm', 'p', ';']);
    assert("&lt;"@ =~= seq!['&', 'l', 't', ';']);
    assert("&gt;"@ =~= seq!['&', 'g', 't', ';']);
    assert("&quot;"@ =~= seq!['&', 'q', 'u', 'o', 't', ';']);
    assert("&apos;"@ =~= seq!['&', 'a', 'p', 'o', 's', ';']);
}

/// A character that is replaced by an escape.
pub open spec fn is_replaced(c: char) -> bool {
    c == '&' || is_markup(c)
}

/// A text without characters that are replaced is escaped to itself.
pub proof fn plain_text_is_not_escaped(s: Seq<char>)
    requires
        forall|i: int| 0 <= i < s.len() ==> !is_replaced(#[trigger] s[i]),
    ensures
        escaped(s) == s,
    decreases s.len(),
{
    if s.len() > 0 {
        plain_text_is_not_escaped(s.drop_last());
        assert(!is_replaced(s[s.len() - 1]));
        assert(s.drop_last() + seq![s.last()] =~= s);
    }
}

proof fn lemma_escaped_front(s: Seq<char>)
    requires
        s.len() > 0,
    ensures
        escaped(s) == escape_of(s[0]) + escaped(s.skip(1)),
    decreases s.len(),
{
    let front = s.drop_last();
    if front.len() == 0 {
        assert(escaped(front) =~= Seq::empty());
        assert(escaped(s.skip(1)) =~= Seq::empty());
        assert(escaped(s) =~= escape_of(s[0]) + escaped(s.skip(1)));
    } else {
        lemma_escaped_front(front);
        assert(front.skip(1) =~= s.skip(1).drop_last());
        assert(s.skip(1).last() == s.last());
        assert(escape_of(s[0]) + escaped(front.skip(1)) + escape_of(s.last()) =~= escape_of(s[0])
            + (escaped(front.skip(1)) + escape_of(s.last())));
    }
}

/// No escape is the start of another one.
proof fn lemma_escapes_differ(c: char, a: Seq<char>, d: char, b: Seq<char>)
    requires
        escape_of(c) + a == escape_of(d) + b,
    ensures
        c == d,
        a == b,
{
    lemma_escapes();
    let left = escape_of(c) + a;
    let right = escape_of(d) + b;
    assert(left[0] == escape_of(c)[0] && right[0] == escape_of(d)[0]);
    if is_replaced(c) && is_replaced(d) {
        assert(left[1] == escape_of(c)[1] && right[1] == escape_of(d)[1]);
        assert(left[2] == escape_of(c)[2] && right[2] == escape_of(d)[2]);
    }
    assert(c == d);
    assert(a =~= left.skip(escape_of(c).len() as int));
    assert(b =~= right.skip(escape_of(d).len() as int));
}

/// Texts that differ are escaped to texts that differ.
pub proof fn escaping_keeps_texts_apart(s: Seq<char>, t: Seq<char>)
    requires
        escaped(s) == escaped(t),
    ensures
        s == t,
    decreases s.len(),
{
    lemma_escapes();
    if s.len() == 0 || t.len() == 0 {
        if s.len() > 0 {
            lemma_escaped_front(s);
        }
        if t.len() > 0 {
            lemma_escaped_front(t);
        }
        assert(s =~= t);
    } else {
        lemma_escaped_front(s);
        lemma_escaped_front(t);
        lemma_escapes_differ(s[0], escaped(s.skip(1)), t[0], escaped(t.skip(1)));
        escaping_keeps_texts_apart(s.skip(1), t.skip(1));
        assert(s =~= seq![s[0]] + s.skip(1));
        assert(t =~= seq![t[0]] + t.skip(1));
    }
}

} // verus!
