//! Embedded fonts: reading the `<p:embeddedFontLst>` of presentation.xml with the font data
//! parts it points to, and embedding a new font.
use vstd::prelude::*;
use crate::embedded_font::{EmbeddedFont, FontView};
use crate::error::PptxError;
use crate::edit::{inserted, insert_at};
use crate::id_list::find_chars;
use crate::opc::content_type::X_FONTDATA;
use crate::opc::package::{
    Part, PackageView, PartView, RelView, RelsView, find_part, find_rid, lemma_find_part_found, lemma_find_rid_found,
    next_partname_from, next_rid,
};
use crate::opc::relationship_type::FONT as FONT_RT;
use crate::opc::uri::{base_uri_spec, copy_chars, relative_ref_spec, resolve};
use crate::scan::{find_from, lemma_find_from, occurs_at};
use crate::slide::blob_text;
use crate::text::{lossy_utf8, push_escaped, str_to_chars, string_from_utf8_lossy, string_push_str, xml_escape_spec};
use vstd::utf8::encode_utf8;
use crate::xml::{
    EventView, XmlEvent, attributes_of, attrs_view, bytes_are, bytes_equal_str, is_final, local_name,
    local_name_spec, next_event, reader_events, tag_attrs, tag_local, tag_local_name, xml_events, xml_reader,
};
use super::{Presentation, pres_index, part_dir, lemma_pres_index};
use super::slides::rels_have_room;

verus! {

/// Why reading the fonts failed: text that is not UTF-8 (`PptxError::InvalidXml`), an
/// attribute that the reader refused (`PptxError::MalformedAttribute`), or XML that it
/// refused (`PptxError::Xml`).
pub enum FontFail {
    Invalid,
    Attr,
    Reader,
}

/// What has been read of the font list so far: whether an `<p:embeddedFont>` is open, its
/// typeface, style and font relationship id, and the fonts completed.
pub struct FontRead {
    pub open: bool,
    pub typeface: Seq<char>,
    pub bold: bool,
    pub italic: bool,
    pub rid: Option<Seq<char>>,
    pub fonts: Seq<FontView>,
}

/// The state before the first event.
pub open spec fn font_start() -> FontRead {
    FontRead { open: false, typeface: Seq::empty(), bold: false, italic: false, rid: None, fonts: Seq::empty() }
}

/// Whether the local name of an attribute key is `k1` or `k2`.
pub open spec fn key_is(key: Seq<u8>, k1: Seq<char>, k2: Seq<char>) -> bool {
    bytes_are(local_name_spec(key), k1) || bytes_are(local_name_spec(key), k2)
}

/// The value (read as UTF-8, invalid sequences replaced) of the last attribute whose key's
/// local name is `k1` or `k2`; `Err` when the reader refused one of the attributes.
pub open spec fn value_after(attrs: Seq<Option<(Seq<u8>, Seq<u8>)>>, k1: Seq<char>, k2: Seq<char>) -> Result<Option<Seq<char>>, ()>
    decreases attrs.len(),
{
    if attrs.len() == 0 {
        Ok(None)
    } else {
        match value_after(attrs.drop_last(), k1, k2) {
            Err(_) => Err(()),
            Ok(v) => match attrs.last() {
                None => Err(()),
                Some((k, x)) => if key_is(k, k1, k2) { Ok(Some(lossy_utf8(x))) } else { Ok(v) },
            },
        }
    }
}

/// The value of the last attribute named `k1` or `k2` of a tag given by its content.
pub open spec fn tag_value(c: Seq<u8>, n: usize, k1: Seq<char>, k2: Seq<char>) -> Result<Option<Seq<char>>, FontFail> {
    match tag_attrs(c, n) {
        Some(l) => match value_after(l, k1, k2) {
            Ok(v) => Ok(v),
            Err(_) => Err(FontFail::Attr),
        },
        None => Err(FontFail::Invalid),
    }
}

/// Whether a local name is one of the four style elements.
pub open spec fn is_style(ln: Seq<u8>) -> bool {
    bytes_are(ln, "regular"@) || bytes_are(ln, "bold"@) || bytes_are(ln, "italic"@) || bytes_are(ln, "boldItalic"@)
}

/// The data of the part that relationship `rid` of the presentation part (at `pi`) points
/// to; `None` without such a relationship, for an external one, or without the part.
pub open spec fn font_data(pkg: PackageView, pi: int, rid: Option<Seq<char>>) -> Option<Seq<u8>> {
    match rid {
        None => None,
        Some(r) => match find_rid(pkg.parts[pi].rels.rels, r, 0) {
            None => None,
            Some(j) => {
                let rel = pkg.parts[pi].rels.rels[j];
                if rel.is_external {
                    None
                } else {
                    match find_part(pkg.parts, resolve(base_uri_spec(pkg.parts[pi].partname), rel.target_ref), 0) {
                        Some(k) => Some(pkg.parts[k].blob),
                        None => None,
                    }
                }
            },
        }
    }
}

/// A start or empty-element tag: `<p:embeddedFont>` opens a new entry; inside one,
/// `<p:font>` gives the typeface and a style element gives the style and the font's
/// relationship id.
pub open spec fn font_tag(st: FontRead, c: Seq<u8>, n: usize) -> Result<FontRead, FontFail> {
    let ln = tag_local_name(c, n);
    if bytes_are(ln, "embeddedFont"@) {
        Ok(FontRead { open: true, typeface: Seq::empty(), bold: false, italic: false, rid: None, ..st })
    } else if bytes_are(ln, "font"@) && st.open {
        match tag_value(c, n, "typeface"@, "typeface"@) {
            Ok(Some(t)) => Ok(FontRead { typeface: t, ..st }),
            Ok(None) => Ok(st),
            Err(f) => Err(f),
        }
    } else if is_style(ln) && st.open {
        let bold = bytes_are(ln, "bold"@) || bytes_are(ln, "boldItalic"@);
        let italic = bytes_are(ln, "italic"@) || bytes_are(ln, "boldItalic"@);
        match tag_value(c, n, "id"@, "embed"@) {
            Ok(Some(r)) => Ok(FontRead { bold, italic, rid: Some(r), ..st }),
            Ok(None) => Ok(FontRead { bold, italic, ..st }),
            Err(f) => Err(f),
        }
    } else {
        Ok(st)
    }
}

/// One event that is not the end of input or an error: tags as `font_tag` says; the end of
/// an open `<p:embeddedFont>` completes a font when its data part is found.
pub open spec fn font_step(pkg: PackageView, pi: int, st: FontRead, e: EventView) -> Result<FontRead, FontFail> {
    match e {
        EventView::Start(c, n) => font_tag(st, c, n),
        EventView::Empty(c, n) => font_tag(st, c, n),
        EventView::End(name) => {
            if bytes_are(local_name_spec(name), "embeddedFont"@) && st.open {
                match font_data(pkg, pi, st.rid) {
                    Some(d) => Ok(FontRead {
                        open: false,
                        fonts: st.fonts.push(FontView { data: d, typeface: st.typeface, bold: st.bold, italic: st.italic }),
                        ..st
                    }),
                    None => Ok(FontRead { open: false, ..st }),
                }
            } else {
                Ok(st)
            }
        },
        _ => Ok(st),
    }
}

/// The fonts after the events from position `i` on.
pub open spec fn fonts_from(pkg: PackageView, pi: int, ev: Seq<EventView>, i: int, st: FontRead) -> Result<Seq<FontView>, FontFail>
    decreases ev.len() - i,
{
    if i < 0 || i >= ev.len() {
        Ok(st.fonts)
    } else {
        match ev[i] {
            EventView::Eof => Ok(st.fonts),
            EventView::Error => Err(FontFail::Reader),
            e => match font_step(pkg, pi, st, e) {
                Ok(s2) => fonts_from(pkg, pi, ev, i + 1, s2),
                Err(f) => Err(f),
            },
        }
    }
}

/// The embedded fonts of a presentation, read from presentation.xml; `None` without a
/// presentation part.
pub open spec fn fonts_of(pkg: PackageView) -> Option<Result<Seq<FontView>, FontFail>> {
    match pres_index(pkg) {
        None => None,
        Some(pi) => {
            let b = pkg.parts[pi].blob;
            if blob_text(b) is Some {
                Some(fonts_from(pkg, pi, xml_events(b), 0, font_start()))
            } else {
                Some(Err(FontFail::Invalid))
            }
        },
    }
}

/// Whether an error is the one a failure stands for.
pub open spec fn font_fail_is(e: PptxError, f: FontFail) -> bool {
    match f {
        FontFail::Invalid => e is InvalidXml,
        FontFail::Attr => e == PptxError::MalformedAttribute,
        FontFail::Reader => e == PptxError::Xml,
    }
}

/// The value of the last attribute named `k1` or `k2` (see `value_after`).
pub(crate) fn last_value(attrs: &Vec<Option<(Vec<u8>, Vec<u8>)>>, k1: &str, k2: &str) -> (r: Result<Option<String>, ()>)
    ensures
        match value_after(attrs_view(attrs@), k1@, k2@) {
            Ok(Some(v)) => r matches Ok(Some(s)) && s@ == v,
            Ok(None) => r matches Ok(None),
            Err(_) => r is Err,
        },
{
    let ghost l = attrs_view(attrs@);
    let mut cur: Option<String> = None;
    let mut j: usize = 0;
    while j < attrs.len()
        invariant
            j <= attrs.len(),
            l == attrs_view(attrs@),
            value_after(l.take(j as int), k1@, k2@) == Ok::<Option<Seq<char>>, ()>(match cur { Some(s) => Some(s@), None => None }),
        decreases attrs.len() - j,
    {
        assert(l.take(j as int + 1).drop_last() == l.take(j as int));
        match &attrs[j] {
            Some((k, v)) => {
                let ln = local_name(k.as_slice());
                if bytes_equal_str(ln.as_slice(), k1) || bytes_equal_str(ln.as_slice(), k2) {
                    cur = Some(string_from_utf8_lossy(v.as_slice()));
                }
            },
            None => {
                proof { lemma_value_after_err(l, k1@, k2@, j as int + 1); }
                return Err(());
            },
        }
        j = j + 1;
    }
    assert(l.take(j as int) == l);
    Ok(cur)
}

/// A refused attribute among the first `m` makes every longer prefix fail too.
proof fn lemma_value_after_err(l: Seq<Option<(Seq<u8>, Seq<u8>)>>, k1: Seq<char>, k2: Seq<char>, m: int)
    requires
        0 < m <= l.len(),
        l[m - 1] is None,
    ensures
        value_after(l, k1, k2) is Err,
    decreases l.len(),
{
    if l.len() > m {
        lemma_value_after_err(l.drop_last(), k1, k2, m);
    } else {
        assert(l.last() is None);
    }
}

/// The value of the last attribute named `k1` or `k2` of a tag (see `tag_value`).
pub(crate) fn tag_value_exec(c: &Vec<u8>, n: usize, k1: &str, k2: &str) -> (r: Result<Option<String>, PptxError>)
    ensures
        match tag_value(c@, n, k1@, k2@) {
            Ok(Some(v)) => r matches Ok(Some(s)) && s@ == v,
            Ok(None) => r matches Ok(None),
            Err(f) => r matches Err(e) && font_fail_is(e, f),
        },
{
    match attributes_of(c.as_slice(), n) {
        Some(attrs) => match last_value(&attrs, k1, k2) {
            Ok(v) => Ok(v),
            Err(_) => Err(PptxError::MalformedAttribute),
        },
        None => Err(PptxError::InvalidXml("tag is not UTF-8".to_owned())),
    }
}

/// The views of a list of fonts.
pub open spec fn fonts_view(v: Seq<EmbeddedFont>) -> Seq<FontView> {
    v.map_values(|f: EmbeddedFont| f@)
}

impl Presentation {
    /// The data of the font part that relationship `rid` of the presentation part points
    /// to (see `font_data`).
    fn font_part_data(&self, pi: usize, rid: &Option<String>, base: &str) -> (r: Option<Vec<u8>>)
        requires
            pi < self@.parts.len(),
            base@ == base_uri_spec(self@.parts[pi as int].partname),
        ensures
            match font_data(self@, pi as int, super::signatures::opt_chars(*rid)) {
                Some(d) => r matches Some(v) && v@ == d,
                None => r is None,
            },
    {
        proof { self.lemma_view(); }
        let r = match rid {
            Some(r) => r,
            None => return None,
        };
        let pres = self.package.part_at(pi);
        let rel = match pres.rels.get(r.as_str()) {
            Some(rel) => rel,
            None => return None,
        };
        proof { lemma_find_rid_found(self@.parts[pi as int].rels.rels, r@, 0); }
        let pn = match rel.target_partname(base) {
            Ok(pn) => pn,
            Err(_) => return None,
        };
        match self.package.part(&pn) {
            Some(p) => Some(p.blob.clone()),
            None => None,
        }
    }

    /// The fonts embedded in the presentation (see `fonts_of`).
    pub fn embedded_fonts(&self) -> (r: Result<Vec<EmbeddedFont>, PptxError>)
        ensures
            match fonts_of(self@) {
                Some(Ok(l)) => r matches Ok(v) && fonts_view(v@) == l,
                Some(Err(f)) => r matches Err(e) && font_fail_is(e, f),
                None => r is Err,
            },
    {
        proof { self.lemma_view(); }
        let pi = self.presentation_part_index()?;
        let pres = self.package.part_at(pi);
        let blob = pres.blob.as_slice();
        if crate::text::str_from_utf8(blob).is_none() {
            return Err(PptxError::InvalidXml("presentation part is not UTF-8".to_owned()));
        }
        let n = blob.len();
        let base = pres.partname.base_uri();
        let mut reader = xml_reader(blob);
        let ghost ev = xml_events(blob@);
        let ghost mut i: int = 0;
        let mut open = false;
        let mut typeface = String::new();
        let mut bold = false;
        let mut italic = false;
        let mut rid: Option<String> = None;
        let mut fonts: Vec<EmbeddedFont> = Vec::new();
        assert(fonts_view(fonts@) == Seq::<FontView>::empty());
        loop
            invariant
                ev == xml_events(blob@),
                pres_index(self@) == Some(pi as int),
                pi < self@.parts.len(),
                blob@ == self@.parts[pi as int].blob,
                blob_text(blob@) is Some,
                base@ == base_uri_spec(self@.parts[pi as int].partname),
                0 < ev.len() <= n + 1,
                is_final(ev.last()),
                forall|k: int| 0 <= k < ev.len() - 1 ==> !is_final(#[trigger] ev[k]),
                0 <= i < ev.len(),
                reader_events(reader) == ev.subrange(i, ev.len() as int),
                fonts_from(self@, pi as int, ev, 0, font_start()) == fonts_from(self@, pi as int, ev, i, (FontRead {
                    open,
                    typeface: typeface@,
                    bold,
                    italic,
                    rid: super::signatures::opt_chars(rid),
                    fonts: fonts_view(fonts@),
                })),
            decreases ev.len() - i,
        {
            let e = next_event(&mut reader);
            proof {
                if i < ev.len() - 1 {
                    assert(ev.subrange(i, ev.len() as int).drop_first() == ev.subrange(i + 1, ev.len() as int));
                }
            }
            match e {
                XmlEvent::Start(c, k) | XmlEvent::Empty(c, k) => {
                    let ln = tag_local(c.as_slice(), k);
                    if bytes_equal_str(ln.as_slice(), "embeddedFont") {
                        open = true;
                        typeface = String::new();
                        bold = false;
                        italic = false;
                        rid = None;
                    } else if bytes_equal_str(ln.as_slice(), "font") && open {
                        match tag_value_exec(&c, k, "typeface", "typeface")? {
                            Some(t) => { typeface = t; },
                            None => {},
                        }
                    } else if (bytes_equal_str(ln.as_slice(), "regular") || bytes_equal_str(ln.as_slice(), "bold")
                        || bytes_equal_str(ln.as_slice(), "italic") || bytes_equal_str(ln.as_slice(), "boldItalic")) && open {
                        bold = bytes_equal_str(ln.as_slice(), "bold") || bytes_equal_str(ln.as_slice(), "boldItalic");
                        italic = bytes_equal_str(ln.as_slice(), "italic") || bytes_equal_str(ln.as_slice(), "boldItalic");
                        match tag_value_exec(&c, k, "id", "embed")? {
                            Some(r) => { rid = Some(r); },
                            None => {},
                        }
                    }
                },
                XmlEvent::End(name) => {
                    let ln = local_name(name.as_slice());
                    if bytes_equal_str(ln.as_slice(), "embeddedFont") && open {
                        match self.font_part_data(pi, &rid, base.as_str()) {
                            Some(d) => {
                                let f = EmbeddedFont::from_bytes(d, typeface.as_str(), bold, italic);
                                let ghost before = fonts@;
                                fonts.push(f);
                                assert(fonts_view(fonts@) =~= fonts_view(before).push(f@));
                            },
                            None => {},
                        }
                        open = false;
                    }
                },
                XmlEvent::Eof => {
                    return Ok(fonts);
                },
                XmlEvent::Error => {
                    return Err(PptxError::Xml);
                },
                _ => {},
            }
            proof { i = i + 1; }
        }
    }
}

/// The style element of a font entry.
pub open spec fn variant_tag(bold: bool, italic: bool) -> Seq<char> {
    if bold && italic {
        "p:boldItalic"@
    } else if bold {
        "p:bold"@
    } else if italic {
        "p:italic"@
    } else {
        "p:regular"@
    }
}

/// The `<p:embeddedFont>` entry of a font whose data part has relationship id `rid`.
pub open spec fn font_entry(f: FontView, rid: Seq<char>) -> Seq<char> {
    "<p:embeddedFont><p:font typeface=\""@ + xml_escape_spec(f.typeface) + "\"/><"@ + variant_tag(f.bold, f.italic)
        + " r:id=\""@ + rid + "\"/></p:embeddedFont>"@
}

/// presentation.xml with a font entry added: before the first `</p:embeddedFontLst>`; without
/// a font list, a new list holding the entry right after the first `</p:sldIdLst>`, else
/// after the first `</p:sldMasterIdLst>`, else before the first `</p:presentation>`; the
/// text unchanged when it has none of these.
pub open spec fn with_font_entry(t: Seq<char>, entry: Seq<char>) -> Seq<char> {
    let list = "<p:embeddedFontLst>"@ + entry + "</p:embeddedFontLst>"@;
    match find_from(t, "</p:embeddedFontLst>"@, 0) {
        Some(p) => inserted(t, p, entry),
        None => match find_from(t, "</p:sldIdLst>"@, 0) {
            Some(p) => inserted(t, p + "</p:sldIdLst>"@.len(), list),
            None => match find_from(t, "</p:sldMasterIdLst>"@, 0) {
                Some(p) => inserted(t, p + "</p:sldMasterIdLst>"@.len(), list),
                None => match find_from(t, "</p:presentation>"@, 0) {
                    Some(p) => inserted(t, p, list),
                    None => t,
                },
            },
        },
    }
}

/// What `add_embedded_font` gives: a new part `/ppt/fonts/fontN.fntdata` holding the font
/// data, a font relationship to it from the presentation part, and the font's entry in
/// presentation.xml (see `with_font_entry`); `None` (an error, nothing changed) without a
/// presentation part or when it is not UTF-8.
pub open spec fn font_added(pkg: PackageView, f: FontView) -> Option<PackageView> {
    match pres_index(pkg) {
        None => None,
        Some(pi) => match blob_text(pkg.parts[pi].blob) {
            None => None,
            Some(t) => {
                let pp = pkg.parts[pi];
                let name = next_partname_from(pkg.parts, "/ppt/fonts/font"@, ".fntdata"@, 1);
                let rid = next_rid(pp.rels.rels);
                let rel = RelView {
                    r_id: rid,
                    rel_type: FONT_RT@,
                    target_ref: relative_ref_spec(name, part_dir(pp)),
                    is_external: false,
                };
                let fp = PartView {
                    partname: name,
                    content_type: X_FONTDATA@,
                    blob: f.data,
                    rels: RelsView { rels: Seq::empty(), base: base_uri_spec(name) },
                };
                Some(PackageView {
                    parts: pkg.parts.push(fp).update(pi, PartView {
                        blob: encode_utf8(with_font_entry(t, font_entry(f, rid))),
                        rels: RelsView { rels: pp.rels.rels.push(rel), base: pp.rels.base },
                        ..pp
                    }),
                    pkg_rels: pkg.pkg_rels,
                })
            },
        },
    }
}

/// The entry of a font (see `font_entry`).
fn font_entry_xml(font: &EmbeddedFont, rid: &str) -> (r: String)
    ensures
        r@ == font_entry(font@, rid@),
{
    let variant = if font.bold && font.italic {
        "p:boldItalic"
    } else if font.bold {
        "p:bold"
    } else if font.italic {
        "p:italic"
    } else {
        "p:regular"
    };
    proof {
        reveal_strlit("p:boldItalic");
        reveal_strlit("p:bold");
        reveal_strlit("p:italic");
        reveal_strlit("p:regular");
    }
    let mut s = String::new();
    string_push_str(&mut s, "<p:embeddedFont><p:font typeface=\"");
    push_escaped(&mut s, font.typeface.as_str());
    string_push_str(&mut s, "\"/><");
    string_push_str(&mut s, variant);
    string_push_str(&mut s, " r:id=\"");
    string_push_str(&mut s, rid);
    string_push_str(&mut s, "\"/></p:embeddedFont>");
    s
}

/// presentation.xml with a font entry added (see `with_font_entry`).
fn add_font_entry(t: &Vec<char>, entry: &str) -> (r: Vec<char>)
    ensures
        r@ == with_font_entry(t@, entry@),
{
    let mut list = String::new();
    string_push_str(&mut list, "<p:embeddedFontLst>");
    string_push_str(&mut list, entry);
    string_push_str(&mut list, "</p:embeddedFontLst>");
    let lst_end = str_to_chars("</p:embeddedFontLst>");
    let ids_end = str_to_chars("</p:sldIdLst>");
    let masters_end = str_to_chars("</p:sldMasterIdLst>");
    let pres_end = str_to_chars("</p:presentation>");
    match find_chars(t, &lst_end, 0) {
        Some(p) => {
            proof { lemma_find_from(t@, lst_end@, 0); }
            insert_at(t, p, entry)
        },
        None => match find_chars(t, &ids_end, 0) {
            Some(p) => {
                proof { lemma_find_from(t@, ids_end@, 0); }
                assert(occurs_at(t@, ids_end@, p as int));
                assert(p + ids_end.len() <= t.len());
                insert_at(t, p + ids_end.len(), list.as_str())
            },
            None => match find_chars(t, &masters_end, 0) {
                Some(p) => {
                    proof { lemma_find_from(t@, masters_end@, 0); }
                    assert(occurs_at(t@, masters_end@, p as int));
                    assert(p + masters_end.len() <= t.len());
                    insert_at(t, p + masters_end.len(), list.as_str())
                },
                None => match find_chars(t, &pres_end, 0) {
                    Some(p) => {
                        proof { lemma_find_from(t@, pres_end@, 0); }
                        insert_at(t, p, list.as_str())
                    },
                    None => copy_chars(t),
                },
            },
        },
    }
}

impl Presentation {
    /// Embeds a font: its data as a new part, a font relationship from the presentation
    /// part, and an entry in presentation.xml's font list (see `font_added`).
    pub fn add_embedded_font(&mut self, font: &EmbeddedFont) -> (r: Result<(), PptxError>)
        requires
            old(self)@.parts.len() + 1 < usize::MAX,
            rels_have_room(old(self)@),
        ensures
            match font_added(old(self)@, font@) {
                Some(p) => r is Ok && final(self)@ == p,
                None => r is Err && final(self)@ == old(self)@,
            },
    {
        proof { self.lemma_view(); lemma_pres_index(self@); }
        let pi = self.presentation_part_index()?;
        let t = crate::slide::blob_chars(self.package.part_at(pi).blob.as_slice())?;
        let font_partname = self.package.next_partname("/ppt/fonts/font", ".fntdata");
        let pres_base = self.package.part_at(pi).partname.base_uri();
        let rel_target = font_partname.relative_ref(pres_base.as_str());
        let rid = self.package.part_at(pi).rels.next_r_id();
        let entry = font_entry_xml(font, rid.as_str());
        let nt = add_font_entry(&t, entry.as_str());
        let nb = crate::slide::chars_blob(&nt);
        let font_part = Part::new(font_partname, X_FONTDATA, font.font_data.clone());
        let ghost old_pkg = self@;
        proof { lemma_find_part_found(self@.parts, font_part@.partname, 0); }
        self.package.put_part(font_part);
        proof { self.lemma_view(); }
        let mut rels = self.package.take_rels_at(pi);
        let rid2 = rels.add_relationship(FONT_RT, rel_target.as_str(), false);
        self.package.set_rels_at(pi, rels);
        self.package.set_blob_at(pi, nb);
        proof { self.lemma_view(); }
        assert(rid2@ == rid@);
        assert(self@.parts =~= old_pkg.parts.push(font_part@).update(pi as int, PartView {
            blob: nb@,
            rels: RelsView {
                rels: old_pkg.parts[pi as int].rels.rels.push(RelView {
                    r_id: rid@, rel_type: FONT_RT@, target_ref: rel_target@, is_external: false }),
                base: old_pkg.parts[pi as int].rels.base,
            },
            ..old_pkg.parts[pi as int]
        }));
        Ok(())
    }
}

} // verus!
