//! Reading a package from the entries of its zip archive: the content types, the
//! relationship parts, and the parts.
use vstd::prelude::*;
use vstd::string::StringSliceAdditionalSpecFns;
use crate::error::PptxError;
use crate::id_list::occurs_at_exec;
use crate::opc::archive::{archive_files, zip_count, zip_entry, zip_listing, zip_open};
use crate::opc::package::{OpcPackage, Part, PartView, PackageView, RelView, RelsView, Relationship, Relationships, part_views, rel_views};
use crate::opc::serialize::{member_name, member_name_of, package_rels_member, rels_partname, rels_partname_of, types_member};
use crate::opc::uri::{PackURI, base_uri_spec};
use crate::scan::occurs_at;
use crate::text::{str_from_utf8, str_to_chars, string_push, string_push_str};
use crate::xml::{
    EventView, XmlEvent, attr_value, bytes_are, bytes_equal_str, is_final, next_event, reader_events, tag_local,
    tag_local_name, xml_attr_lookup, xml_events, xml_reader,
};

verus! {

/// Why a package could not be read.
pub enum LoadFail {
    /// The bytes are not a zip archive.
    NotZip,
    /// An entry of the archive could not be read.
    Unreadable,
    /// There is no `[Content_Types].xml`.
    NoTypes,
    /// A part has no content type.
    NoContentType,
    /// A tag that is not UTF-8, or a required attribute missing.
    Invalid,
    /// An attribute that the XML reader refused.
    Attr,
    /// XML that the reader refused.
    Reader,
}

/// Whether an error is the one a failure stands for.
pub open spec fn load_fail_is(e: PptxError, f: LoadFail) -> bool {
    match f {
        LoadFail::NotZip | LoadFail::Unreadable | LoadFail::NoTypes | LoadFail::NoContentType => e is Package,
        LoadFail::Invalid => e is InvalidXml,
        LoadFail::Attr => e == PptxError::MalformedAttribute,
        LoadFail::Reader => e == PptxError::Xml,
    }
}

/// The unescaped value of a required attribute `key` of the tag with text `s`.
pub open spec fn required_attr(s: Seq<char>, n: usize, key: Seq<char>) -> Result<Seq<char>, LoadFail> {
    match xml_attr_lookup(s, n, key) {
        Ok(Some(v)) => Ok(v),
        Ok(None) => Err(LoadFail::Invalid),
        Err(_) => Err(LoadFail::Attr),
    }
}

/// The relationship a `<Relationship>` tag gives: its `Id`, `Type` and `Target`
/// (required, in that order) and whether its `TargetMode` is `External`.
pub open spec fn rel_from_tag(c: Seq<u8>, n: usize) -> Result<RelView, LoadFail> {
    if !vstd::utf8::valid_utf8(c) || n > c.len() {
        Err(LoadFail::Invalid)
    } else {
        let s = vstd::utf8::decode_utf8(c);
        match required_attr(s, n, "Id"@) {
            Err(f) => Err(f),
            Ok(id) => match required_attr(s, n, "Type"@) {
                Err(f) => Err(f),
                Ok(ty) => match required_attr(s, n, "Target"@) {
                    Err(f) => Err(f),
                    Ok(tg) => match xml_attr_lookup(s, n, "TargetMode"@) {
                        Err(_) => Err(LoadFail::Attr),
                        Ok(m) => Ok(RelView { r_id: id, rel_type: ty, target_ref: tg, is_external: m == Some("External"@) }),
                    },
                },
            },
        }
    }
}

/// The relationships read from the events from position `i` on: one for each start or
/// empty-element tag whose local name is `Relationship`.
pub open spec fn rels_from(ev: Seq<EventView>, i: int, acc: Seq<RelView>) -> Result<Seq<RelView>, LoadFail>
    decreases ev.len() - i,
{
    if i < 0 || i >= ev.len() {
        Ok(acc)
    } else {
        match ev[i] {
            EventView::Eof => Ok(acc),
            EventView::Error => Err(LoadFail::Reader),
            EventView::Start(c, n) => if bytes_are(tag_local_name(c, n), "Relationship"@) {
                match rel_from_tag(c, n) {
                    Ok(r) => rels_from(ev, i + 1, acc.push(r)),
                    Err(f) => Err(f),
                }
            } else {
                rels_from(ev, i + 1, acc)
            },
            EventView::Empty(c, n) => if bytes_are(tag_local_name(c, n), "Relationship"@) {
                match rel_from_tag(c, n) {
                    Ok(r) => rels_from(ev, i + 1, acc.push(r)),
                    Err(f) => Err(f),
                }
            } else {
                rels_from(ev, i + 1, acc)
            },
            _ => rels_from(ev, i + 1, acc),
        }
    }
}

/// The relationships of a relationships part's bytes.
pub open spec fn rels_of_bytes(b: Seq<u8>) -> Result<Seq<RelView>, LoadFail> {
    rels_from(xml_events(b), 0, Seq::empty())
}

/// The content types: `(extension, type)` defaults and `(part name, type)` overrides.
pub struct TypesView {
    pub defaults: Seq<(Seq<char>, Seq<char>)>,
    pub overrides: Seq<(Seq<char>, Seq<char>)>,
}

/// A pair from a tag: the required attribute `key` and the required `ContentType`.
pub open spec fn pair_from_tag(c: Seq<u8>, n: usize, key: Seq<char>) -> Result<(Seq<char>, Seq<char>), LoadFail> {
    if !vstd::utf8::valid_utf8(c) || n > c.len() {
        Err(LoadFail::Invalid)
    } else {
        let s = vstd::utf8::decode_utf8(c);
        match required_attr(s, n, key) {
            Err(f) => Err(f),
            Ok(k) => match required_attr(s, n, "ContentType"@) {
                Err(f) => Err(f),
                Ok(t) => Ok((k, t)),
            },
        }
    }
}

/// A start or empty-element tag of `[Content_Types].xml`: `<Default>` adds a default,
/// `<Override>` an override.
pub open spec fn types_tag(t: TypesView, c: Seq<u8>, n: usize) -> Result<TypesView, LoadFail> {
    let ln = tag_local_name(c, n);
    if bytes_are(ln, "Default"@) {
        match pair_from_tag(c, n, "Extension"@) {
            Ok(p) => Ok(TypesView { defaults: t.defaults.push(p), ..t }),
            Err(f) => Err(f),
        }
    } else if bytes_are(ln, "Override"@) {
        match pair_from_tag(c, n, "PartName"@) {
            Ok(p) => Ok(TypesView { overrides: t.overrides.push(p), ..t }),
            Err(f) => Err(f),
        }
    } else {
        Ok(t)
    }
}

/// The content types read from the events from position `i` on.
pub open spec fn types_from(ev: Seq<EventView>, i: int, t: TypesView) -> Result<TypesView, LoadFail>
    decreases ev.len() - i,
{
    if i < 0 || i >= ev.len() {
        Ok(t)
    } else {
        match ev[i] {
            EventView::Eof => Ok(t),
            EventView::Error => Err(LoadFail::Reader),
            EventView::Start(c, n) => match types_tag(t, c, n) {
                Ok(t2) => types_from(ev, i + 1, t2),
                Err(f) => Err(f),
            },
            EventView::Empty(c, n) => match types_tag(t, c, n) {
                Ok(t2) => types_from(ev, i + 1, t2),
                Err(f) => Err(f),
            },
            _ => types_from(ev, i + 1, t),
        }
    }
}

/// No content types yet.
pub open spec fn no_types() -> TypesView {
    TypesView { defaults: Seq::empty(), overrides: Seq::empty() }
}

/// The content types of `[Content_Types].xml`'s bytes.
pub open spec fn types_of_bytes(b: Seq<u8>) -> Result<TypesView, LoadFail> {
    types_from(xml_events(b), 0, no_types())
}

/// Whether `t` ends with `suffix`.
pub open spec fn ends_with(t: Seq<char>, suffix: Seq<char>) -> bool {
    occurs_at(t, suffix, t.len() - suffix.len())
}

/// The type of the first override for part name `p`.
pub open spec fn override_for(l: Seq<(Seq<char>, Seq<char>)>, p: Seq<char>, i: int) -> Option<Seq<char>>
    decreases l.len() - i,
{
    if i < 0 || i >= l.len() {
        None
    } else if l[i].0 == p {
        Some(l[i].1)
    } else {
        override_for(l, p, i + 1)
    }
}

/// The type of the first default whose extension, after a dot, ends part name `p`.
pub open spec fn default_for(l: Seq<(Seq<char>, Seq<char>)>, p: Seq<char>, i: int) -> Option<Seq<char>>
    decreases l.len() - i,
{
    if i < 0 || i >= l.len() {
        None
    } else if ends_with(p, seq!['.'] + l[i].0) {
        Some(l[i].1)
    } else {
        default_for(l, p, i + 1)
    }
}

/// The content type of part name `p`: its override, else the default for its extension.
pub open spec fn content_type_for(t: TypesView, p: Seq<char>) -> Option<Seq<char>> {
    match override_for(t.overrides, p, 0) {
        Some(c) => Some(c),
        None => default_for(t.defaults, p, 0),
    }
}

/// The contents of the first entry named `name` at or after `i`.
pub open spec fn find_entry(es: Seq<(Seq<char>, Seq<u8>)>, name: Seq<char>, i: int) -> Option<Seq<u8>>
    decreases es.len() - i,
{
    if i < 0 || i >= es.len() {
        None
    } else if es[i].0 == name {
        Some(es[i].1)
    } else {
        find_entry(es, name, i + 1)
    }
}

/// Whether an entry is a part: not `[Content_Types].xml`, not a relationships part
/// (`.rels`), not a folder (ending in `/`).
pub open spec fn is_part_entry(name: Seq<char>) -> bool {
    name != types_member() && !ends_with(name, ".rels"@) && !ends_with(name, "/"@)
}

/// The relationships of part `p`: those of its relationships entry, none without one.
pub open spec fn rels_for(es: Seq<(Seq<char>, Seq<u8>)>, p: Seq<char>) -> Result<Seq<RelView>, LoadFail> {
    match find_entry(es, member_name(rels_partname(p)), 0) {
        Some(b) => rels_of_bytes(b),
        None => Ok(Seq::empty()),
    }
}

/// The parts of the entries from position `i` on: each part entry named `n` becomes part
/// `/n` with its content type and relationships.
pub open spec fn parts_from(es: Seq<(Seq<char>, Seq<u8>)>, t: TypesView, i: int, acc: Seq<PartView>) -> Result<Seq<PartView>, LoadFail>
    decreases es.len() - i,
{
    if i < 0 || i >= es.len() {
        Ok(acc)
    } else if !is_part_entry(es[i].0) {
        parts_from(es, t, i + 1, acc)
    } else {
        let pn = seq!['/'] + es[i].0;
        match content_type_for(t, pn) {
            None => Err(LoadFail::NoContentType),
            Some(ct) => match rels_for(es, pn) {
                Err(f) => Err(f),
                Ok(rs) => parts_from(es, t, i + 1, acc.push(PartView {
                    partname: pn,
                    content_type: ct,
                    blob: es[i].1,
                    rels: RelsView { rels: rs, base: base_uri_spec(pn) },
                })),
            },
        }
    }
}

/// The package the entries of an archive hold.
pub open spec fn package_from_entries(es: Seq<(Seq<char>, Seq<u8>)>) -> Result<PackageView, LoadFail> {
    match find_entry(es, types_member(), 0) {
        None => Err(LoadFail::NoTypes),
        Some(tb) => match types_of_bytes(tb) {
            Err(f) => Err(f),
            Ok(t) => {
                let pr = match find_entry(es, package_rels_member(), 0) {
                    Some(b) => rels_of_bytes(b),
                    None => Ok(Seq::empty()),
                };
                match pr {
                    Err(f) => Err(f),
                    Ok(prs) => match parts_from(es, t, 0, Seq::empty()) {
                        Err(f) => Err(f),
                        Ok(ps) => Ok(PackageView { parts: ps, pkg_rels: RelsView { rels: prs, base: seq!['/'] } }),
                    },
                }
            },
        },
    }
}

/// The entries of a listing, when every one could be read.
pub open spec fn all_read(l: Seq<(Seq<char>, Option<Seq<u8>>)>) -> Option<Seq<(Seq<char>, Seq<u8>)>>
    decreases l.len(),
{
    if l.len() == 0 {
        Some(Seq::empty())
    } else {
        match (all_read(l.drop_last()), l.last().1) {
            (Some(p), Some(d)) => Some(p.push((l.last().0, d))),
            _ => None,
        }
    }
}

/// The package of a zip archive's bytes.
pub open spec fn package_from_bytes(data: Seq<u8>) -> Result<PackageView, LoadFail> {
    match zip_listing(data) {
        None => Err(LoadFail::NotZip),
        Some(l) => match all_read(l) {
            None => Err(LoadFail::Unreadable),
            Some(es) => package_from_entries(es),
        },
    }
}

/// The views of a list of entries.
pub open spec fn entries_view(v: Seq<(String, Vec<u8>)>) -> Seq<(Seq<char>, Seq<u8>)> {
    v.map_values(|e: (String, Vec<u8>)| (e.0@, e.1@))
}

/// The views of a list of pairs.
pub open spec fn pairs_view(v: Seq<(String, String)>) -> Seq<(Seq<char>, Seq<char>)> {
    v.map_values(|e: (String, String)| (e.0@, e.1@))
}

/// The error a failure stands for.
fn fail_error(f: LoadFail, what: &str) -> (e: PptxError)
    ensures
        load_fail_is(e, f),
{
    match f {
        LoadFail::NotZip | LoadFail::Unreadable | LoadFail::NoTypes | LoadFail::NoContentType => PptxError::Package(what.to_owned()),
        LoadFail::Invalid => PptxError::InvalidXml(what.to_owned()),
        LoadFail::Attr => PptxError::MalformedAttribute,
        LoadFail::Reader => PptxError::Xml,
    }
}

/// A required attribute (see `required_attr`).
fn required_attr_exec(s: &str, n: usize, key: &str) -> (r: Result<String, PptxError>)
    requires
        n <= s.spec_bytes().len(),
    ensures
        match required_attr(s@, n, key@) {
            Ok(v) => r matches Ok(x) && x@ == v,
            Err(f) => r matches Err(e) && load_fail_is(e, f),
        },
{
    match attr_value(s, n, key) {
        Ok(Some(v)) => Ok(v),
        Ok(None) => Err(PptxError::InvalidXml(key.to_owned())),
        Err(_) => Err(PptxError::MalformedAttribute),
    }
}

/// The relationship of a `<Relationship>` tag (see `rel_from_tag`).
fn rel_from_tag_exec(c: &Vec<u8>, n: usize) -> (r: Result<Relationship, PptxError>)
    ensures
        match rel_from_tag(c@, n) {
            Ok(v) => r matches Ok(x) && x@ == v,
            Err(f) => r matches Err(e) && load_fail_is(e, f),
        },
{
    let s = match str_from_utf8(c.as_slice()) {
        Some(s) => s,
        None => return Err(PptxError::InvalidXml("relationship tag is not UTF-8".to_owned())),
    };
    if n > c.len() {
        return Err(PptxError::InvalidXml("relationship tag".to_owned()));
    }
    let r_id = required_attr_exec(s, n, "Id")?;
    let rel_type = required_attr_exec(s, n, "Type")?;
    let target_ref = required_attr_exec(s, n, "Target")?;
    let is_external = match attr_value(s, n, "TargetMode") {
        Ok(Some(m)) => crate::enums::str_eq(m.as_str(), "External"),
        Ok(None) => false,
        Err(_) => return Err(PptxError::MalformedAttribute),
    };
    Ok(Relationship { r_id, rel_type, target_ref, is_external })
}

/// Reads the relationships of a relationships part (see `rels_of_bytes`).
pub fn parse_rels(blob: &[u8]) -> (r: Result<Vec<Relationship>, PptxError>)
    ensures
        match rels_of_bytes(blob@) {
            Ok(l) => r matches Ok(v) && rel_views(v@) == l,
            Err(f) => r matches Err(e) && load_fail_is(e, f),
        },
{
    let n = blob.len();
    let mut reader = xml_reader(blob);
    let ghost ev = xml_events(blob@);
    let ghost mut i: int = 0;
    let mut out: Vec<Relationship> = Vec::new();
    assert(rel_views(out@) =~= Seq::<RelView>::empty());
    loop
        invariant
            ev == xml_events(blob@),
            0 < ev.len() <= n + 1,
            is_final(ev.last()),
            forall|j: int| 0 <= j < ev.len() - 1 ==> !is_final(#[trigger] ev[j]),
            0 <= i < ev.len(),
            reader_events(reader) == ev.subrange(i, ev.len() as int),
            rels_of_bytes(blob@) == rels_from(ev, i, rel_views(out@)),
        decreases ev.len() - i,
    {
        let e = next_event(&mut reader);
        proof {
            if i < ev.len() - 1 {
                assert(ev.subrange(i, ev.len() as int).drop_first() == ev.subrange(i + 1, ev.len() as int));
            }
        }
        match e {
            XmlEvent::Start(c, m) | XmlEvent::Empty(c, m) => {
                let ln = tag_local(c.as_slice(), m);
                if bytes_equal_str(ln.as_slice(), "Relationship") {
                    let rel = rel_from_tag_exec(&c, m)?;
                    let ghost before = out@;
                    out.push(rel);
                    assert(rel_views(out@) =~= rel_views(before).push(rel@));
                }
            },
            XmlEvent::Eof => {
                return Ok(out);
            },
            XmlEvent::Error => {
                return Err(PptxError::Xml);
            },
            _ => {},
        }
        proof {
            i = i + 1;
        }
    }
}

/// A pair from a `<Default>` or `<Override>` tag (see `pair_from_tag`).
fn pair_from_tag_exec(c: &Vec<u8>, n: usize, key: &str) -> (r: Result<(String, String), PptxError>)
    ensures
        match pair_from_tag(c@, n, key@) {
            Ok(v) => r matches Ok(x) && x.0@ == v.0 && x.1@ == v.1,
            Err(f) => r matches Err(e) && load_fail_is(e, f),
        },
{
    let s = match str_from_utf8(c.as_slice()) {
        Some(s) => s,
        None => return Err(PptxError::InvalidXml("content type tag is not UTF-8".to_owned())),
    };
    if n > c.len() {
        return Err(PptxError::InvalidXml("content type tag".to_owned()));
    }
    let k = required_attr_exec(s, n, key)?;
    let t = required_attr_exec(s, n, "ContentType")?;
    Ok((k, t))
}

/// Reads `[Content_Types].xml`: its defaults and its overrides (see `types_of_bytes`).
pub fn parse_types(blob: &[u8]) -> (r: Result<(Vec<(String, String)>, Vec<(String, String)>), PptxError>)
    ensures
        match types_of_bytes(blob@) {
            Ok(t) => r matches Ok((d, o)) && pairs_view(d@) == t.defaults && pairs_view(o@) == t.overrides,
            Err(f) => r matches Err(e) && load_fail_is(e, f),
        },
{
    let n = blob.len();
    let mut reader = xml_reader(blob);
    let ghost ev = xml_events(blob@);
    let ghost mut i: int = 0;
    let mut defaults: Vec<(String, String)> = Vec::new();
    let mut overrides: Vec<(String, String)> = Vec::new();
    assert(pairs_view(defaults@) =~= no_types().defaults);
    assert(pairs_view(overrides@) =~= no_types().overrides);
    loop
        invariant
            ev == xml_events(blob@),
            0 < ev.len() <= n + 1,
            is_final(ev.last()),
            forall|j: int| 0 <= j < ev.len() - 1 ==> !is_final(#[trigger] ev[j]),
            0 <= i < ev.len(),
            reader_events(reader) == ev.subrange(i, ev.len() as int),
            types_of_bytes(blob@) == types_from(ev, i, TypesView { defaults: pairs_view(defaults@), overrides: pairs_view(overrides@) }),
        decreases ev.len() - i,
    {
        let e = next_event(&mut reader);
        proof {
            if i < ev.len() - 1 {
                assert(ev.subrange(i, ev.len() as int).drop_first() == ev.subrange(i + 1, ev.len() as int));
            }
        }
        match e {
            XmlEvent::Start(c, m) | XmlEvent::Empty(c, m) => {
                let ln = tag_local(c.as_slice(), m);
                if bytes_equal_str(ln.as_slice(), "Default") {
                    let p = pair_from_tag_exec(&c, m, "Extension")?;
                    let ghost before = defaults@;
                    defaults.push(p);
                    assert(pairs_view(defaults@) =~= pairs_view(before).push((p.0@, p.1@)));
                } else if bytes_equal_str(ln.as_slice(), "Override") {
                    let p = pair_from_tag_exec(&c, m, "PartName")?;
                    let ghost before = overrides@;
                    overrides.push(p);
                    assert(pairs_view(overrides@) =~= pairs_view(before).push((p.0@, p.1@)));
                }
            },
            XmlEvent::Eof => {
                return Ok((defaults, overrides));
            },
            XmlEvent::Error => {
                return Err(PptxError::Xml);
            },
            _ => {},
        }
        proof {
            i = i + 1;
        }
    }
}

/// Whether `t` ends with `suffix` (see `ends_with`).
fn ends_with_exec(t: &Vec<char>, suffix: &Vec<char>) -> (r: bool)
    ensures
        r == ends_with(t@, suffix@),
{
    if t.len() < suffix.len() {
        return false;
    }
    occurs_at_exec(t, suffix, t.len() - suffix.len())
}

/// The type of the first override for a part name (see `override_for`).
fn override_for_exec(l: &Vec<(String, String)>, p: &str) -> (r: Option<String>)
    ensures
        match override_for(pairs_view(l@), p@, 0) {
            Some(c) => r matches Some(x) && x@ == c,
            None => r is None,
        },
{
    let ghost v = pairs_view(l@);
    let mut i: usize = 0;
    while i < l.len()
        invariant
            i <= l.len(),
            v == pairs_view(l@),
            override_for(v, p@, 0) == override_for(v, p@, i as int),
        decreases l.len() - i,
    {
        assert(v[i as int] == (l@[i as int].0@, l@[i as int].1@));
        if crate::enums::str_eq(l[i].0.as_str(), p) {
            return Some(l[i].1.clone());
        }
        i = i + 1;
    }
    None
}

/// The type of the first default whose extension ends a part name (see `default_for`).
fn default_for_exec(l: &Vec<(String, String)>, p: &str) -> (r: Option<String>)
    ensures
        match default_for(pairs_view(l@), p@, 0) {
            Some(c) => r matches Some(x) && x@ == c,
            None => r is None,
        },
{
    let ghost v = pairs_view(l@);
    let pc = str_to_chars(p);
    let mut i: usize = 0;
    while i < l.len()
        invariant
            i <= l.len(),
            v == pairs_view(l@),
            pc@ == p@,
            default_for(v, p@, 0) == default_for(v, p@, i as int),
        decreases l.len() - i,
    {
        assert(v[i as int] == (l@[i as int].0@, l@[i as int].1@));
        let mut dot = String::new();
        string_push(&mut dot, '.');
        string_push_str(&mut dot, l[i].0.as_str());
        let suffix = str_to_chars(dot.as_str());
        assert(suffix@ =~= seq!['.'] + v[i as int].0);
        if ends_with_exec(&pc, &suffix) {
            return Some(l[i].1.clone());
        }
        i = i + 1;
    }
    None
}

/// The content type of a part name (see `content_type_for`).
fn content_type_exec(d: &Vec<(String, String)>, o: &Vec<(String, String)>, p: &str) -> (r: Option<String>)
    ensures
        match content_type_for(TypesView { defaults: pairs_view(d@), overrides: pairs_view(o@) }, p@) {
            Some(c) => r matches Some(x) && x@ == c,
            None => r is None,
        },
{
    match override_for_exec(o, p) {
        Some(c) => Some(c),
        None => default_for_exec(d, p),
    }
}

/// The position of the first entry named `name` (see `find_entry`).
fn find_entry_exec(es: &Vec<(String, Vec<u8>)>, name: &str) -> (r: Option<usize>)
    ensures
        match find_entry(entries_view(es@), name@, 0) {
            Some(b) => r matches Some(k) && k < es@.len() && es@[k as int].1@ == b,
            None => r is None,
        },
{
    let ghost v = entries_view(es@);
    let mut i: usize = 0;
    while i < es.len()
        invariant
            i <= es.len(),
            v == entries_view(es@),
            find_entry(v, name@, 0) == find_entry(v, name@, i as int),
        decreases es.len() - i,
    {
        assert(v[i as int] == (es@[i as int].0@, es@[i as int].1@));
        if crate::enums::str_eq(es[i].0.as_str(), name) {
            return Some(i);
        }
        i = i + 1;
    }
    None
}

/// Whether an entry is a part (see `is_part_entry`).
fn is_part_entry_exec(name: &str) -> (r: bool)
    ensures
        r == is_part_entry(name@),
{
    let c = str_to_chars(name);
    let rels = str_to_chars(".rels");
    let slash = str_to_chars("/");
    !crate::enums::str_eq(name, "[Content_Types].xml") && !ends_with_exec(&c, &rels) && !ends_with_exec(&c, &slash)
}

/// The relationships of a part from the entries (see `rels_for`).
fn rels_for_exec(es: &Vec<(String, Vec<u8>)>, p: &str) -> (r: Result<Relationships, PptxError>)
    ensures
        match rels_for(entries_view(es@), p@) {
            Ok(l) => r matches Ok(x) && x@ == (RelsView { rels: l, base: base_uri_spec(p@) }),
            Err(f) => r matches Err(e) && load_fail_is(e, f),
        },
{
    let rn = rels_partname_of(p);
    let m = member_name_of(rn.as_str());
    let base = crate::opc::uri::base_uri_of(p);
    match find_entry_exec(es, m.as_str()) {
        Some(k) => {
            let list = parse_rels(es[k].1.as_slice())?;
            Ok(Relationships::from_list(list, base.as_str()))
        },
        None => {
            let r = Relationships::new(base.as_str());
            assert(r@.rels =~= Seq::<RelView>::empty());
            Ok(r)
        },
    }
}

/// The parts of the entries (see `parts_from`).
fn parts_exec(es: &Vec<(String, Vec<u8>)>, d: &Vec<(String, String)>, o: &Vec<(String, String)>) -> (r: Result<Vec<Part>, PptxError>)
    ensures
        match parts_from(entries_view(es@), TypesView { defaults: pairs_view(d@), overrides: pairs_view(o@) }, 0, Seq::empty()) {
            Ok(l) => r matches Ok(v) && part_views(v@) == l,
            Err(f) => r matches Err(e) && load_fail_is(e, f),
        },
{
    let ghost ev = entries_view(es@);
    let ghost t = TypesView { defaults: pairs_view(d@), overrides: pairs_view(o@) };
    let mut out: Vec<Part> = Vec::new();
    assert(part_views(out@) =~= Seq::<PartView>::empty());
    let mut i: usize = 0;
    while i < es.len()
        invariant
            i <= es.len(),
            ev == entries_view(es@),
            t == (TypesView { defaults: pairs_view(d@), overrides: pairs_view(o@) }),
            parts_from(ev, t, 0, Seq::empty()) == parts_from(ev, t, i as int, part_views(out@)),
        decreases es.len() - i,
    {
        assert(ev[i as int] == (es@[i as int].0@, es@[i as int].1@));
        let name = es[i].0.as_str();
        if is_part_entry_exec(name) {
            let mut pn = String::new();
            string_push(&mut pn, '/');
            string_push_str(&mut pn, name);
            assert(pn@ =~= seq!['/'] + ev[i as int].0);
            let ct = match content_type_exec(d, o, pn.as_str()) {
                Some(c) => c,
                None => return Err(PptxError::Package(pn)),
            };
            let rels = rels_for_exec(es, pn.as_str())?;
            let part = Part { partname: PackURI::from_string(pn), content_type: ct, blob: es[i].1.clone(), rels };
            let ghost before = out@;
            out.push(part);
            assert(part_views(out@) =~= part_views(before).push(part@));
        }
        i = i + 1;
    }
    Ok(out)
}

/// An entry that cannot be read makes every longer listing unreadable too.
proof fn lemma_all_read_prefix(l: Seq<(Seq<char>, Option<Seq<u8>>)>, k: int)
    requires
        0 <= k <= l.len(),
        all_read(l.take(k)) is None,
    ensures
        all_read(l) is None,
    decreases l.len() - k,
{
    if k < l.len() {
        assert(l.take(k + 1).drop_last() =~= l.take(k));
        lemma_all_read_prefix(l, k + 1);
    } else {
        assert(l.take(k) =~= l);
    }
}

/// The entries of a zip archive's bytes, every one read (see `all_read`).
pub fn read_entries(data: Vec<u8>) -> (r: Result<Vec<(String, Vec<u8>)>, PptxError>)
    ensures
        match zip_listing(data@) {
            None => r matches Err(e) && e is Package,
            Some(l) => match all_read(l) {
                None => r matches Err(e) && e is Package,
                Some(es) => r matches Ok(v) && entries_view(v@) == es,
            },
        },
{
    let ghost d = data@;
    let mut a = match zip_open(data) {
        Some(a) => a,
        None => return Err(PptxError::Package("not a zip archive".to_owned())),
    };
    let ghost l = zip_listing(d).unwrap();
    let n = zip_count(&a);
    let mut out: Vec<(String, Vec<u8>)> = Vec::new();
    assert(l.take(0) =~= Seq::<(Seq<char>, Option<Seq<u8>>)>::empty());
    assert(entries_view(out@) =~= Seq::<(Seq<char>, Seq<u8>)>::empty());
    let mut i: usize = 0;
    while i < n
        invariant
            i <= n,
            n == l.len(),
            d == data@,
            l == zip_listing(d).unwrap(),
            zip_listing(d) is Some,
            archive_files(a) == l,
            all_read(l.take(i as int)) == Some(entries_view(out@)),
        decreases n - i,
    {
        assert(l.take(i as int + 1).drop_last() =~= l.take(i as int));
        assert(l.take(i as int + 1).last() == l[i as int]);
        match zip_entry(&mut a, i) {
            Some(e) => {
                let ghost before = out@;
                out.push(e);
                assert(entries_view(out@) =~= entries_view(before).push((e.0@, e.1@)));
            },
            None => {
                assert(l[i as int].1 is None);
                assert(all_read(l.take(i as int + 1)) is None);
                proof { lemma_all_read_prefix(l, i as int + 1); }
                return Err(PptxError::Package("an entry of the archive cannot be read".to_owned()));
            },
        }
        i = i + 1;
    }
    assert(l.take(i as int) =~= l);
    Ok(out)
}

/// Reads a package from the bytes of its zip archive (see `package_from_bytes`).
pub fn package_from_bytes_exec(data: Vec<u8>) -> (r: Result<OpcPackage, PptxError>)
    ensures
        match package_from_bytes(data@) {
            Ok(p) => r matches Ok(x) && x@ == p,
            Err(f) => r matches Err(e) && load_fail_is(e, f),
        },
{
    let ghost d = data@;
    let es = read_entries(data)?;
    let ghost ev = entries_view(es@);
    assert(package_from_bytes(d) == package_from_entries(ev));
    let ti = match find_entry_exec(&es, "[Content_Types].xml") {
        Some(k) => k,
        None => return Err(PptxError::Package("no [Content_Types].xml".to_owned())),
    };
    let (d, o) = parse_types(es[ti].1.as_slice())?;
    let prels = match find_entry_exec(&es, "_rels/.rels") {
        Some(k) => parse_rels(es[k].1.as_slice())?,
        None => {
            let v: Vec<Relationship> = Vec::new();
            assert(rel_views(v@) =~= Seq::<RelView>::empty());
            v
        },
    };
    let parts = parts_exec(&es, &d, &o)?;
    proof { reveal_strlit("/"); }
    let pkg_rels = Relationships::from_list(prels, "/");
    assert(pkg_rels@.base =~= seq!['/']);
    let pkg = OpcPackage::from_parts(parts, pkg_rels);
    assert(package_from_entries(ev) matches Ok(p) && pkg@ == p);
    Ok(pkg)
}

} // verus!
