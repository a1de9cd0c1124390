//! Core properties: the Dublin Core metadata of a package (`docProps/core.xml`).
use vstd::prelude::*;
use vstd::utf8::encode_utf8;
use crate::error::PptxError;
use crate::opc::load::{LoadFail, load_fail_is};
use crate::text::{push_escaped, string_into_bytes, string_push_str, xml_escape_spec};
use crate::xml::{
    EventView, XmlEvent, bytes_are, bytes_equal_str, is_final, next_event, reader_events, tag_local, tag_local_name,
    unescape_text, xml_events_untrimmed, xml_reader_untrimmed, xml_unescaped,
};

verus! {

/// The number of properties.
pub const N_PROPS: usize = 10;

/// The core properties of a presentation; an empty value is one that is not set.
#[derive(Debug, Clone, PartialEq, Eq)]
pub struct CoreProperties {
    title: String,
    subject: String,
    author: String,
    keywords: String,
    comments: String,
    last_modified_by: String,
    revision: String,
    category: String,
    created: String,
    modified: String,
}

impl View for CoreProperties {
    type V = Seq<Seq<char>>;

    /// The values in this order: title, subject, author, keywords, comments,
    /// last modified by, revision, category, created, modified.
    closed spec fn view(&self) -> Seq<Seq<char>> {
        seq![
            self.title@, self.subject@, self.author@, self.keywords@, self.comments@,
            self.last_modified_by@, self.revision@, self.category@, self.created@, self.modified@,
        ]
    }
}

/// No property set.
pub open spec fn no_props() -> Seq<Seq<char>> {
    Seq::new(10, |k: int| Seq::<char>::empty())
}

/// The element that holds property `k`.
pub open spec fn prop_tag(k: int) -> Seq<char> {
    if k == 0 { "dc:title"@ }
    else if k == 1 { "dc:subject"@ }
    else if k == 2 { "dc:creator"@ }
    else if k == 3 { "cp:keywords"@ }
    else if k == 4 { "dc:description"@ }
    else if k == 5 { "cp:lastModifiedBy"@ }
    else if k == 6 { "cp:revision"@ }
    else if k == 7 { "cp:category"@ }
    else if k == 8 { "dcterms:created"@ }
    else { "dcterms:modified"@ }
}

/// The property an element's local name holds.
pub open spec fn prop_index(ln: Seq<u8>) -> Option<int> {
    if bytes_are(ln, "title"@) { Some(0) }
    else if bytes_are(ln, "subject"@) { Some(1) }
    else if bytes_are(ln, "creator"@) { Some(2) }
    else if bytes_are(ln, "keywords"@) { Some(3) }
    else if bytes_are(ln, "description"@) { Some(4) }
    else if bytes_are(ln, "lastModifiedBy"@) { Some(5) }
    else if bytes_are(ln, "revision"@) { Some(6) }
    else if bytes_are(ln, "category"@) { Some(7) }
    else if bytes_are(ln, "created"@) { Some(8) }
    else if bytes_are(ln, "modified"@) { Some(9) }
    else { None }
}

/// The element of property `k` with value `v`; nothing for an empty value. Dates carry
/// the W3CDTF type.
pub open spec fn prop_xml(k: int, v: Seq<char>) -> Seq<char> {
    if v.len() == 0 {
        Seq::empty()
    } else {
        let attrs = if k >= 8 { " xsi:type=\"dcterms:W3CDTF\""@ } else { Seq::empty() };
        "<"@ + prop_tag(k) + attrs + ">"@ + xml_escape_spec(v) + "</"@ + prop_tag(k) + ">"@
    }
}

/// The elements of the first `n` properties.
pub open spec fn props_xml(v: Seq<Seq<char>>, n: int) -> Seq<char>
    decreases n,
{
    if n <= 0 {
        Seq::empty()
    } else {
        props_xml(v, n - 1) + prop_xml(n - 1, v[n - 1])
    }
}

/// The start of `docProps/core.xml`.
pub open spec fn core_start() -> Seq<char> {
    "<?xml version=\"1.0\" encoding=\"UTF-8\" standalone=\"yes\"?>\n<cp:coreProperties xmlns:cp=\"http://schemas.openxmlformats.org/package/2006/metadata/core-properties\" xmlns:dc=\"http://purl.org/dc/elements/1.1/\" xmlns:dcterms=\"http://purl.org/dc/terms/\" xmlns:dcmitype=\"http://purl.org/dc/dcmitype/\" xmlns:xsi=\"http://www.w3.org/2001/XMLSchema-instance\">"@
}

/// `docProps/core.xml` for property values `v`.
pub open spec fn core_xml(v: Seq<Seq<char>>) -> Seq<char> {
    core_start() + props_xml(v, 10) + "</cp:coreProperties>"@
}

/// What has been read so far: the property whose element is open, and the values.
pub struct CoreRead {
    pub cur: Option<int>,
    pub vals: Seq<Seq<char>>,
}

/// The values read from the events from position `i` on: the start tag of a property's
/// element clears its value, and the text and the character and entity references inside
/// it, resolved, make it up.
pub open spec fn core_from(ev: Seq<EventView>, i: int, st: CoreRead) -> Result<Seq<Seq<char>>, LoadFail>
    decreases ev.len() - i,
{
    if i < 0 || i >= ev.len() {
        Ok(st.vals)
    } else {
        match ev[i] {
            EventView::Eof => Ok(st.vals),
            EventView::Error => Err(LoadFail::Reader),
            EventView::Start(c, n) => match prop_index(tag_local_name(c, n)) {
                Some(k) => core_from(ev, i + 1, CoreRead { cur: Some(k), vals: st.vals.update(k, Seq::empty()) }),
                None => core_from(ev, i + 1, CoreRead { cur: None, ..st }),
            },
            EventView::Empty(_, _) => core_from(ev, i + 1, CoreRead { cur: None, ..st }),
            EventView::End(_) => core_from(ev, i + 1, CoreRead { cur: None, ..st }),
            EventView::Text(t) => match st.cur {
                Some(k) => match t {
                    Some(s) => core_from(ev, i + 1, CoreRead { vals: st.vals.update(k, st.vals[k] + s), ..st }),
                    None => Err(LoadFail::Invalid),
                },
                None => core_from(ev, i + 1, st),
            },
            EventView::Ref(b) => match st.cur {
                Some(k) => if vstd::utf8::valid_utf8(b) {
                    match xml_unescaped(seq!['&'] + vstd::utf8::decode_utf8(b) + seq![';']) {
                        Ok(u) => core_from(ev, i + 1, CoreRead { vals: st.vals.update(k, st.vals[k] + u), ..st }),
                        Err(_) => Err(LoadFail::Invalid),
                    }
                } else {
                    Err(LoadFail::Invalid)
                },
                None => core_from(ev, i + 1, st),
            },
            EventView::Other => core_from(ev, i + 1, st),
        }
    }
}

/// The property values of `docProps/core.xml`'s bytes, read with text kept as it is.
pub open spec fn core_of_bytes(b: Seq<u8>) -> Result<Seq<Seq<char>>, LoadFail> {
    core_from(xml_events_untrimmed(b), 0, CoreRead { cur: None, vals: no_props() })
}

fn prop_index_exec(ln: &[u8]) -> (r: Option<usize>)
    ensures
        match prop_index(ln@) {
            Some(k) => r == Some(k as usize),
            None => r is None,
        },
{
    if bytes_equal_str(ln, "title") { Some(0) }
    else if bytes_equal_str(ln, "subject") { Some(1) }
    else if bytes_equal_str(ln, "creator") { Some(2) }
    else if bytes_equal_str(ln, "keywords") { Some(3) }
    else if bytes_equal_str(ln, "description") { Some(4) }
    else if bytes_equal_str(ln, "lastModifiedBy") { Some(5) }
    else if bytes_equal_str(ln, "revision") { Some(6) }
    else if bytes_equal_str(ln, "category") { Some(7) }
    else if bytes_equal_str(ln, "created") { Some(8) }
    else if bytes_equal_str(ln, "modified") { Some(9) }
    else { None }
}

fn prop_tag_exec(k: usize) -> (r: &'static str)
    requires
        k < 10,
    ensures
        r@ == prop_tag(k as int),
{
    if k == 0 { "dc:title" }
    else if k == 1 { "dc:subject" }
    else if k == 2 { "dc:creator" }
    else if k == 3 { "cp:keywords" }
    else if k == 4 { "dc:description" }
    else if k == 5 { "cp:lastModifiedBy" }
    else if k == 6 { "cp:revision" }
    else if k == 7 { "cp:category" }
    else if k == 8 { "dcterms:created" }
    else { "dcterms:modified" }
}

impl CoreProperties {
    /// Properties with nothing set.
    pub fn new() -> (r: CoreProperties)
        ensures
            r@ == no_props(),
    {
        let r = CoreProperties {
            title: String::new(),
            subject: String::new(),
            author: String::new(),
            keywords: String::new(),
            comments: String::new(),
            last_modified_by: String::new(),
            revision: String::new(),
            category: String::new(),
            created: String::new(),
            modified: String::new(),
        };
        assert(r@ =~= no_props());
        r
    }

    /// Value `k` (see `view` for the order).
    pub fn get(&self, k: usize) -> (r: &str)
        requires
            k < 10,
        ensures
            r@ == self@[k as int],
    {
        if k == 0 { self.title.as_str() }
        else if k == 1 { self.subject.as_str() }
        else if k == 2 { self.author.as_str() }
        else if k == 3 { self.keywords.as_str() }
        else if k == 4 { self.comments.as_str() }
        else if k == 5 { self.last_modified_by.as_str() }
        else if k == 6 { self.revision.as_str() }
        else if k == 7 { self.category.as_str() }
        else if k == 8 { self.created.as_str() }
        else { self.modified.as_str() }
    }

    /// Sets value `k` (see `view` for the order).
    pub fn set(&mut self, k: usize, v: &str)
        requires
            k < 10,
        ensures
            final(self)@ == old(self)@.update(k as int, v@),
    {
        let s = v.to_owned();
        if k == 0 { self.title = s; }
        else if k == 1 { self.subject = s; }
        else if k == 2 { self.author = s; }
        else if k == 3 { self.keywords = s; }
        else if k == 4 { self.comments = s; }
        else if k == 5 { self.last_modified_by = s; }
        else if k == 6 { self.revision = s; }
        else if k == 7 { self.category = s; }
        else if k == 8 { self.created = s; }
        else { self.modified = s; }
        assert(self@ =~= old(self)@.update(k as int, v@));
    }

    /// The title.
    pub fn title(&self) -> (r: &str)
        ensures
            r@ == self@[0],
    {
        self.get(0)
    }

    /// Sets the title.
    pub fn set_title(&mut self, v: &str)
        ensures
            final(self)@ == old(self)@.update(0, v@),
    {
        self.set(0, v)
    }

    /// The author (`dc:creator`).
    pub fn author(&self) -> (r: &str)
        ensures
            r@ == self@[2],
    {
        self.get(2)
    }

    /// Sets the author.
    pub fn set_author(&mut self, v: &str)
        ensures
            final(self)@ == old(self)@.update(2, v@),
    {
        self.set(2, v)
    }

    /// The XML of `docProps/core.xml` (see `core_xml`).
    pub fn to_xml(&self) -> (r: Vec<u8>)
        ensures
            r@ == encode_utf8(core_xml(self@)),
    {
        let mut s = String::new();
        string_push_str(&mut s, "<?xml version=\"1.0\" encoding=\"UTF-8\" standalone=\"yes\"?>\n<cp:coreProperties xmlns:cp=\"http://schemas.openxmlformats.org/package/2006/metadata/core-properties\" xmlns:dc=\"http://purl.org/dc/elements/1.1/\" xmlns:dcterms=\"http://purl.org/dc/terms/\" xmlns:dcmitype=\"http://purl.org/dc/dcmitype/\" xmlns:xsi=\"http://www.w3.org/2001/XMLSchema-instance\">");
        let ghost start = s@;
        let mut k: usize = 0;
        while k < 10
            invariant
                k <= 10,
                s@ == start + props_xml(self@, k as int),
            decreases 10 - k,
        {
            let v = self.get(k);
            let tag = prop_tag_exec(k);
            let ghost before = s@;
            if crate::text::str_to_chars(v).len() > 0 {
                string_push_str(&mut s, "<");
                string_push_str(&mut s, tag);
                if k >= 8 {
                    string_push_str(&mut s, " xsi:type=\"dcterms:W3CDTF\"");
                }
                string_push_str(&mut s, ">");
                push_escaped(&mut s, v);
                string_push_str(&mut s, "</");
                string_push_str(&mut s, tag);
                string_push_str(&mut s, ">");
            }
            assert(s@ =~= before + prop_xml(k as int, self@[k as int]));
            k = k + 1;
        }
        string_push_str(&mut s, "</cp:coreProperties>");
        assert(s@ =~= core_xml(self@));
        string_into_bytes(s)
    }

    /// Properties read from `docProps/core.xml` (see `core_of_bytes`).
    pub fn from_xml(blob: &[u8]) -> (r: Result<CoreProperties, PptxError>)
        ensures
            match core_of_bytes(blob@) {
                Ok(v) => r matches Ok(x) && x@ == v,
                Err(f) => r matches Err(e) && load_fail_is(e, f),
            },
    {
        let n = blob.len();
        let mut reader = xml_reader_untrimmed(blob);
        let ghost ev = xml_events_untrimmed(blob@);
        let ghost mut i: int = 0;
        let mut props = CoreProperties::new();
        let mut cur: Option<usize> = None;
        loop
            invariant
                ev == xml_events_untrimmed(blob@),
                0 < ev.len() <= n + 1,
                is_final(ev.last()),
                forall|j: int| 0 <= j < ev.len() - 1 ==> !is_final(#[trigger] ev[j]),
                0 <= i < ev.len(),
                reader_events(reader) == ev.subrange(i, ev.len() as int),
                cur matches Some(k) ==> k < 10,
                core_of_bytes(blob@) == core_from(ev, i, CoreRead {
                    cur: match cur { Some(k) => Some(k as int), None => None },
                    vals: props@,
                }),
            decreases ev.len() - i,
        {
            let ghost old_vals = props@;
            let e = next_event(&mut reader);
            proof {
                if i < ev.len() - 1 {
                    assert(ev.subrange(i, ev.len() as int).drop_first() == ev.subrange(i + 1, ev.len() as int));
                }
            }
            match e {
                XmlEvent::Start(c, m) => {
                    let ln = tag_local(c.as_slice(), m);
                    cur = prop_index_exec(ln.as_slice());
                    if let Some(k) = cur {
                        props.set(k, "");
                        proof { reveal_strlit(""); }
                        assert(""@ =~= Seq::<char>::empty());
                    }
                },
                XmlEvent::Empty(_, _) | XmlEvent::End(_) => {
                    cur = None;
                },
                XmlEvent::Text(t) => {
                    if let Some(k) = cur {
                        match t {
                            Some(s) => {
                                let mut v = String::new();
                                string_push_str(&mut v, props.get(k));
                                string_push_str(&mut v, s.as_str());
                                props.set(k, v.as_str());
                                assert(v@ =~= old_vals[k as int] + s@);
                            },
                            None => return Err(PptxError::InvalidXml("core property text is not UTF-8".to_owned())),
                        }
                    }
                },
                XmlEvent::Ref(b) => {
                    if let Some(k) = cur {
                        let name = match crate::text::str_from_utf8(b.as_slice()) {
                            Some(n) => n,
                            None => return Err(PptxError::InvalidXml("reference is not UTF-8".to_owned())),
                        };
                        let mut r = String::new();
                        crate::text::string_push(&mut r, '&');
                        string_push_str(&mut r, name);
                        crate::text::string_push(&mut r, ';');
                        assert(r@ =~= seq!['&'] + name@ + seq![';']);
                        match unescape_text(r.as_str()) {
                            Ok(u) => {
                                let mut v = String::new();
                                string_push_str(&mut v, props.get(k));
                                string_push_str(&mut v, u.as_str());
                                props.set(k, v.as_str());
                                assert(v@ =~= old_vals[k as int] + u@);
                            },
                            Err(_) => return Err(PptxError::InvalidXml("unknown reference".to_owned())),
                        }
                    }
                },
                XmlEvent::Eof => {
                    return Ok(props);
                },
                XmlEvent::Error => {
                    return Err(PptxError::Xml);
                },
                XmlEvent::Other => {},
            }
            proof {
                i = i + 1;
            }
        }
    }
}

} // verus!
