//! The points where the library asks the quick-xml reader about XML text.
use vstd::prelude::*;
use vstd::string::StringSliceAdditionalSpecFns;
use quick_xml::events::Event;

verus! {

/// XML whitespace bytes.
pub open spec fn is_xml_space(b: u8) -> bool {
    b == 0x20 || b == 0x09 || b == 0x0a || b == 0x0d
}

/// Position of the first whitespace byte of `b` at or after `i`, or the length.
pub open spec fn first_space_from(b: Seq<u8>, i: int) -> int
    decreases b.len() - i,
{
    if i >= b.len() {
        b.len() as int
    } else if is_xml_space(b[i]) {
        i
    } else {
        first_space_from(b, i + 1)
    }
}

/// Length in bytes of the tag name at the start of a tag's content: up to the first whitespace.
pub open spec fn tag_name_len_spec(b: Seq<u8>) -> usize {
    first_space_from(b, 0) as usize
}

proof fn lemma_first_space_skip(b: Seq<u8>, i: int)
    requires
        0 <= i < b.len(),
        !is_xml_space(b[i]),
    ensures
        first_space_from(b, i) == first_space_from(b, i + 1),
{
}

/// Length in bytes of the tag name at the start of a tag's content.
pub fn tag_name_len(element: &str) -> (n: usize)
    ensures
        n == tag_name_len_spec(element.spec_bytes()),
        n <= element.spec_bytes().len(),
{
    let b = element.as_bytes();
    let mut i: usize = 0;
    while i < b.len()
        invariant
            b@ == element.spec_bytes(),
            i <= b.len(),
            first_space_from(b@, 0) == first_space_from(b@, i as int),
        decreases b.len() - i,
    {
        if b[i] == 0x20 || b[i] == 0x09 || b[i] == 0x0a || b[i] == 0x0d {
            return i;
        }
        proof { lemma_first_space_skip(b@, i as int); }
        i = i + 1;
    }
    i
}

/// The raw (still escaped) value of the first attribute named `key` of the tag whose
/// content is `content` and whose name is `name_len` bytes long, as quick-xml's
/// `BytesStart::try_get_attribute` finds it: `Ok(None)` when there is none, `Err` when it
/// refuses an attribute before finding it.
pub uninterp spec fn xml_attr_raw(content: Seq<char>, name_len: usize, key: Seq<char>) -> Result<Option<Seq<u8>>, ()>;

/// Looks up attribute `key` (`BytesStart::from_content`, then
/// `BytesStart::try_get_attribute`) and hands out its raw value bytes. Claimed: the result
/// is `xml_attr_raw` of the arguments.
#[verifier::external_body]
fn tag_attribute_raw(content: &str, name_len: usize, key: &str) -> (r: Result<Option<Vec<u8>>, ()>)
    requires
        name_len <= content.spec_bytes().len(),
    ensures
        match (r, xml_attr_raw(content@, name_len, key@)) {
            (Ok(Some(v)), Ok(Some(w))) => v@ == w,
            (Ok(None), Ok(None)) => true,
            (Err(_), Err(_)) => true,
            _ => false,
        },
{
    match quick_xml::events::BytesStart::from_content(content, name_len).try_get_attribute(key) {
        Ok(Some(a)) => Ok(Some(a.value.into_owned())),
        Ok(None) => Ok(None),
        Err(_) => Err(()),
    }
}

/// What quick-xml's `escape::unescape` makes of text: the text with its entity and
/// character references replaced, `Err` when one of them is not valid.
pub uninterp spec fn xml_unescaped(text: Seq<char>) -> Result<Seq<char>, ()>;

/// Replaces the entity and character references of text (`quick_xml::escape::unescape`).
/// Claimed: the result is `xml_unescaped` of the text.
#[verifier::external_body]
pub(crate) fn unescape_text(text: &str) -> (r: Result<String, ()>)
    ensures
        match (r, xml_unescaped(text@)) {
            (Ok(v), Ok(w)) => v@ == w,
            (Err(_), Err(_)) => true,
            _ => false,
        },
{
    match quick_xml::escape::unescape(text) {
        Ok(v) => Ok(v.into_owned()),
        Err(_) => Err(()),
    }
}

/// The value of attribute `key` of the tag whose content is `content` and whose name is
/// `name_len` bytes long, as quick-xml's `Attribute::unescape_value` gives it: the raw value
/// read as UTF-8 and unescaped; `Ok(None)` when there is no such attribute, `Err` when the
/// attributes, the bytes or the references are refused.
pub open spec fn xml_attr_lookup(content: Seq<char>, name_len: usize, key: Seq<char>) -> Result<Option<Seq<char>>, ()> {
    match xml_attr_raw(content, name_len, key) {
        Ok(Some(b)) => if vstd::utf8::valid_utf8(b) {
            match xml_unescaped(vstd::utf8::decode_utf8(b)) {
                Ok(t) => Ok(Some(t)),
                Err(_) => Err(()),
            }
        } else {
            Err(())
        },
        Ok(None) => Ok(None),
        Err(_) => Err(()),
    }
}

/// The unescaped value of attribute `key` of a tag (see `xml_attr_lookup`).
pub fn attr_value(content: &str, name_len: usize, key: &str) -> (r: Result<Option<String>, ()>)
    requires
        name_len <= content.spec_bytes().len(),
    ensures
        match (r, xml_attr_lookup(content@, name_len, key@)) {
            (Ok(Some(v)), Ok(Some(w))) => v@ == w,
            (Ok(None), Ok(None)) => true,
            (Err(_), Err(_)) => true,
            _ => false,
        },
{
    match tag_attribute_raw(content, name_len, key) {
        Ok(Some(raw)) => match crate::text::str_from_utf8(raw.as_slice()) {
            Some(text) => match unescape_text(text) {
                Ok(v) => Ok(Some(v)),
                Err(_) => Err(()),
            },
            None => Err(()),
        },
        Ok(None) => Ok(None),
        Err(_) => Err(()),
    }
}

/// The attributes of the tag whose content is `content` and whose name is `name_len` bytes
/// long, as quick-xml hands them out: raw key and raw (still escaped) value bytes, in order,
/// `None` for one that it refuses.
pub uninterp spec fn xml_attr_list(content: Seq<char>, name_len: usize) -> Seq<Option<(Seq<u8>, Seq<u8>)>>;

/// The attributes of a tag (`BytesStart::from_content`, then `BytesStart::attributes`),
/// each turned into its key and value bytes. Claimed: they are `xml_attr_list` of the
/// arguments.
#[verifier::external_body]
pub(crate) fn tag_attributes(content: &str, name_len: usize) -> (r: Vec<Option<(Vec<u8>, Vec<u8>)>>)
    requires
        name_len <= content.spec_bytes().len(),
    ensures
        r@.len() == xml_attr_list(content@, name_len).len(),
        forall|i: int| 0 <= i < r@.len() ==> match (#[trigger] r@[i], xml_attr_list(content@, name_len)[i]) {
            (Some(a), Some(b)) => a.0@ == b.0 && a.1@ == b.1,
            (None, None) => true,
            _ => false,
        },
{
    quick_xml::events::BytesStart::from_content(content, name_len)
        .attributes()
        .map(|a| a.ok().map(|a| (a.key.as_ref().to_vec(), a.value.into_owned())))
        .collect()
}

/// The attributes of a tag given by its raw content bytes; `None` when they are not UTF-8
/// or the name length is out of range.
pub open spec fn tag_attrs(content: Seq<u8>, name_len: usize) -> Option<Seq<Option<(Seq<u8>, Seq<u8>)>>> {
    if vstd::utf8::valid_utf8(content) && name_len <= content.len() {
        Some(xml_attr_list(vstd::utf8::decode_utf8(content), name_len))
    } else {
        None
    }
}

/// The views of a list of attributes.
pub open spec fn attrs_view(v: Seq<Option<(Vec<u8>, Vec<u8>)>>) -> Seq<Option<(Seq<u8>, Seq<u8>)>> {
    v.map_values(|a: Option<(Vec<u8>, Vec<u8>)>| match a { Some(p) => Some((p.0@, p.1@)), None => None })
}

/// The attributes of a tag given by its raw content bytes (see `tag_attrs`).
pub fn attributes_of(content: &[u8], name_len: usize) -> (r: Option<Vec<Option<(Vec<u8>, Vec<u8>)>>>)
    ensures
        match tag_attrs(content@, name_len) {
            Some(l) => r matches Some(v) && attrs_view(v@) == l,
            None => r is None,
        },
{
    match crate::text::str_from_utf8(content) {
        Some(s) => {
            if name_len <= content.len() {
                let v = tag_attributes(s, name_len);
                assert(attrs_view(v@) == xml_attr_list(s@, name_len));
                Some(v)
            } else {
                None
            }
        },
        None => None,
    }
}

/// Position of the first `:` in `b` at or after `i`.
pub open spec fn colon_from(b: Seq<u8>, i: int) -> Option<int>
    decreases b.len() - i,
{
    if i < 0 || i >= b.len() {
        None
    } else if b[i] == 0x3a {
        Some(i)
    } else {
        colon_from(b, i + 1)
    }
}

/// The local part of a qualified name: what follows its first `:`, or the whole name.
pub open spec fn local_name_spec(name: Seq<u8>) -> Seq<u8> {
    match colon_from(name, 0) {
        Some(p) => name.subrange(p + 1, name.len() as int),
        None => name,
    }
}

/// The local name of the tag whose content is `content` and whose name is `name_len` bytes long.
pub open spec fn tag_local_name(content: Seq<u8>, name_len: usize) -> Seq<u8> {
    local_name_spec(content.subrange(0, name_len as int))
}

/// The local part of a qualified name.
pub fn local_name(name: &[u8]) -> (r: Vec<u8>)
    ensures
        r@ == local_name_spec(name@),
{
    let mut i: usize = 0;
    while i < name.len()
        invariant
            i <= name.len(),
            colon_from(name@, 0) == colon_from(name@, i as int),
        decreases name.len() - i,
    {
        if name[i] == 0x3a {
            let mut out: Vec<u8> = Vec::new();
            let mut j: usize = i + 1;
            while j < name.len()
                invariant
                    i < j <= name.len(),
                    out@ == name@.subrange(i + 1, j as int),
                decreases name.len() - j,
            {
                out.push(name[j]);
                j = j + 1;
            }
            return out;
        }
        i = i + 1;
    }
    let mut out: Vec<u8> = Vec::new();
    let mut j: usize = 0;
    while j < name.len()
        invariant
            j <= name.len(),
            out@ == name@.subrange(0, j as int),
        decreases name.len() - j,
    {
        out.push(name[j]);
        j = j + 1;
    }
    assert(out@ == name@);
    out
}

/// The local name of a tag given by its content and the length of its name.
pub fn tag_local(content: &[u8], name_len: usize) -> (r: Vec<u8>)
    requires
        name_len <= content@.len(),
    ensures
        r@ == tag_local_name(content@, name_len),
{
    let mut name: Vec<u8> = Vec::new();
    let mut j: usize = 0;
    while j < name_len
        invariant
            j <= name_len <= content@.len(),
            name@ == content@.subrange(0, j as int),
        decreases name_len - j,
    {
        name.push(content[j]);
        j = j + 1;
    }
    local_name(name.as_slice())
}

/// Whether bytes, read as UTF-8, are the text `lit`.
pub open spec fn bytes_are(b: Seq<u8>, lit: Seq<char>) -> bool {
    vstd::utf8::valid_utf8(b) && vstd::utf8::decode_utf8(b) == lit
}

/// Whether bytes, read as UTF-8, are the text `lit`.
pub fn bytes_equal_str(b: &[u8], lit: &str) -> (r: bool)
    ensures
        r == bytes_are(b@, lit@),
{
    match crate::text::str_from_utf8(b) {
        Some(s) => crate::enums::str_eq(s, lit),
        None => false,
    }
}

/// What the reader hands out for one step of reading, as plain values: a start tag and an
/// empty-element tag as their raw content (name, then attributes) and the byte length of
/// their name; an end tag as its raw name; text as the reader decodes it (`None` when it
/// could not); a character or entity reference as its raw name (what stands between `&`
/// and `;`); the end of input; an error; any other kind of event.
pub enum XmlEvent {
    Start(Vec<u8>, usize),
    Empty(Vec<u8>, usize),
    End(Vec<u8>),
    Text(Option<String>),
    Ref(Vec<u8>),
    Eof,
    Error,
    Other,
}

/// The value of an [`XmlEvent`].
pub enum EventView {
    Start(Seq<u8>, usize),
    Empty(Seq<u8>, usize),
    End(Seq<u8>),
    Text(Option<Seq<char>>),
    Ref(Seq<u8>),
    Eof,
    Error,
    Other,
}

impl View for XmlEvent {
    type V = EventView;

    open spec fn view(&self) -> EventView {
        match self {
            XmlEvent::Start(c, n) => EventView::Start(c@, *n),
            XmlEvent::Empty(c, n) => EventView::Empty(c@, *n),
            XmlEvent::End(n) => EventView::End(n@),
            XmlEvent::Text(t) => EventView::Text(match t { Some(s) => Some(s@), None => None }),
            XmlEvent::Ref(n) => EventView::Ref(n@),
            XmlEvent::Eof => EventView::Eof,
            XmlEvent::Error => EventView::Error,
            XmlEvent::Other => EventView::Other,
        }
    }
}

/// The events after which the reader is not read any further: the end of input and an error.
pub open spec fn is_final(e: EventView) -> bool {
    e is Eof || e is Error
}

/// quick-xml's pull reader, carried between the calls that read its events; nothing inside
/// it is visible to the proofs.
#[verifier::external_type_specification]
#[verifier::external_body]
#[verifier::reject_recursive_types(R)]
pub struct ExReader<R>(quick_xml::Reader<R>);

/// The events that quick-xml's reader, with text trimmed, yields for `data`, in order, up to
/// and including the first end of input or error.
pub uninterp spec fn xml_events(data: Seq<u8>) -> Seq<EventView>;

/// The events that quick-xml's reader, with text kept as it is, yields for `data`, in
/// order, up to and including the first end of input or error.
pub uninterp spec fn xml_events_untrimmed(data: Seq<u8>) -> Seq<EventView>;

/// The events that a reader yields from its present state on, in order, up to and including
/// the first end of input or error.
pub uninterp spec fn reader_events(reader: quick_xml::Reader<&[u8]>) -> Seq<EventView>;

/// A quick-xml reader over `data` with text trimming on (`Reader::from_reader`, then
/// `Config::trim_text`). Claimed: it yields `xml_events(data)`; that sequence ends with its
/// first end of input or error, and it is at most one longer than `data`, because every
/// event before the end of input takes at least one byte of it.
#[verifier::external_body]
pub(crate) fn xml_reader(data: &[u8]) -> (r: quick_xml::Reader<&[u8]>)
    ensures
        reader_events(r) == xml_events(data@),
        0 < reader_events(r).len() <= data@.len() + 1,
        is_final(reader_events(r).last()),
        forall|i: int| 0 <= i < reader_events(r).len() - 1 ==> !is_final(#[trigger] reader_events(r)[i]),
{
    let mut r = quick_xml::Reader::from_reader(data);
    r.config_mut().trim_text(true);
    r
}

/// A quick-xml reader over `data` with text kept as it is (`Reader::from_reader`). Claimed:
/// it yields `xml_events_untrimmed(data)`; that sequence ends with its first end of input
/// or error, and it is at most one longer than `data`, because every event before the end
/// of input takes at least one byte of it.
#[verifier::external_body]
pub(crate) fn xml_reader_untrimmed(data: &[u8]) -> (r: quick_xml::Reader<&[u8]>)
    ensures
        reader_events(r) == xml_events_untrimmed(data@),
        0 < reader_events(r).len() <= data@.len() + 1,
        is_final(reader_events(r).last()),
        forall|i: int| 0 <= i < reader_events(r).len() - 1 ==> !is_final(#[trigger] reader_events(r)[i]),
{
    quick_xml::Reader::from_reader(data)
}

/// Reads the next event (`Reader::read_event`) and turns it into an [`XmlEvent`], the text
/// of a text event through `BytesText::decode`. Claimed: it is the first of the reader's
/// events, and the reader then yields the rest of them; a tag's name is a prefix of its
/// content.
#[verifier::external_body]
pub(crate) fn next_event(reader: &mut quick_xml::Reader<&[u8]>) -> (e: XmlEvent)
    ensures
        reader_events(*old(reader)).len() > 0 ==> e@ == reader_events(*old(reader))[0],
        reader_events(*old(reader)).len() > 1 ==> reader_events(*final(reader)) == reader_events(*old(reader)).drop_first(),
        e matches XmlEvent::Start(c, n) ==> n <= c@.len(),
        e matches XmlEvent::Empty(c, n) ==> n <= c@.len(),
{
    match reader.read_event() {
        Ok(Event::Start(t)) => XmlEvent::Start(t.to_vec(), t.name().as_ref().len()),
        Ok(Event::Empty(t)) => XmlEvent::Empty(t.to_vec(), t.name().as_ref().len()),
        Ok(Event::End(t)) => XmlEvent::End(t.name().as_ref().to_vec()),
        Ok(Event::Text(t)) => XmlEvent::Text(t.decode().ok().map(|s| s.into_owned())),
        Ok(Event::GeneralRef(r)) => XmlEvent::Ref(r.to_vec()),
        Ok(Event::Eof) => XmlEvent::Eof,
        Ok(_) => XmlEvent::Other,
        Err(_) => XmlEvent::Error,
    }
}

/// Whether the events from position `i`, with `depth` open elements, close every element
/// they open, never close more than are open, and end with the end of input.
pub open spec fn balanced_from(ev: Seq<EventView>, i: int, depth: int) -> bool
    decreases ev.len() - i,
{
    if i < 0 || i >= ev.len() {
        false
    } else {
        match ev[i] {
            EventView::Start(_, _) => balanced_from(ev, i + 1, depth + 1),
            EventView::End(_) => depth > 0 && balanced_from(ev, i + 1, depth - 1),
            EventView::Eof => depth == 0,
            EventView::Error => false,
            _ => balanced_from(ev, i + 1, depth),
        }
    }
}

/// Whether bytes are well-formed XML: the reader's events are balanced (see `balanced_from`).
pub open spec fn well_formed(data: Seq<u8>) -> bool {
    balanced_from(xml_events(data), 0, 0)
}

/// Whether a byte slice is well-formed XML: every element the reader opens is closed,
/// no end tag closes more than is open, and the reader reaches the end without an error.
pub fn is_well_formed_xml(data: &[u8]) -> (r: bool)
    ensures
        r == well_formed(data@),
{
    let n = data.len();
    let mut reader = xml_reader(data);
    let ghost ev = xml_events(data@);
    let ghost mut i: int = 0;
    let mut depth: usize = 0;
    loop
        invariant
            ev == xml_events(data@),
            0 < ev.len() <= n + 1,
            is_final(ev.last()),
            forall|k: int| 0 <= k < ev.len() - 1 ==> !is_final(#[trigger] ev[k]),
            0 <= i < ev.len(),
            depth <= i,
            reader_events(reader) == ev.subrange(i, ev.len() as int),
            balanced_from(ev, 0, 0) == balanced_from(ev, i, depth as int),
        decreases ev.len() - i,
    {
        let e = next_event(&mut reader);
        proof {
            if i < ev.len() - 1 {
                assert(ev.subrange(i, ev.len() as int).drop_first() == ev.subrange(i + 1, ev.len() as int));
            }
        }
        match e {
            XmlEvent::Start(_, _) => {
                assert(i < ev.len() - 1) by {
                    if i == ev.len() - 1 {
                        assert(ev.last() == ev[i]);
                    }
                }
                depth = depth + 1;
            },
            XmlEvent::End(_) => {
                if depth == 0 {
                    return false;
                }
                depth = depth - 1;
            },
            XmlEvent::Eof => {
                return depth == 0;
            },
            XmlEvent::Error => {
                return false;
            },
            _ => {},
        }
        proof { i = i + 1; }
    }
}

} // verus!
