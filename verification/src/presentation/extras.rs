//! Macros (VBA), print settings and digital signatures.
use vstd::prelude::*;
use vstd::utf8::encode_utf8;
use crate::edit::{inserted, removed_element, rfind};
use crate::error::PptxError;
use crate::opc::content_type::{PML_PRESENTATION_MACRO, VBA_PROJECT as VBA_CT};
use crate::opc::package::{Part, PackageView, PartView, RelView, RelsView, find_part, next_rid, next_partname_from, has_part, lemma_find_part_found, lemma_find_part_names};
use crate::opc::relationship_type::VBA_PROJECT as VBA_RT;
use crate::opc::uri::{PackURI, relative_ref_spec, base_uri_spec};
use crate::print_settings::{PrintSettings, print_settings_xml, default_settings, settings_from_element};
use crate::signature::{
    DigitalSignature, signature_xml, xml_declaration, DIGITAL_SIGNATURE_ORIGIN_CT, DIGITAL_SIGNATURE_ORIGIN_RT,
    DIGITAL_SIGNATURE_RT, DIGITAL_SIGNATURE_XML_CT,
};
use crate::slide::blob_text;
use crate::xml::{
    EventView, XmlEvent, bytes_are, bytes_equal_str, is_final, next_event, reader_events, tag_local,
    tag_local_name, xml_events, xml_reader,
};
use super::{Presentation, pres_index, pres_name, part_named, with_blob, lemma_pres_index};
use super::notes::first_target;
use super::slides::rels_have_room;

verus! {

/// `parts` with `p` put in: replacing the first part with its name, else appended.
pub open spec fn put(parts: Seq<PartView>, p: PartView) -> Seq<PartView> {
    match find_part(parts, p.partname, 0) {
        Some(i) => parts.update(i, p),
        None => parts.push(p),
    }
}

/// Relationships after `or_add`: unchanged when one of type `rt` to `target` (not external)
/// exists, else with a new one.
pub open spec fn or_added(rels: RelsView, rt: Seq<char>, target: Seq<char>) -> RelsView {
    if exists|i: int| 0 <= i < rels.rels.len() && #[trigger] rels.rels[i].rel_type == rt && rels.rels[i].target_ref == target
        && !rels.rels[i].is_external {
        rels
    } else {
        RelsView {
            rels: rels.rels.push(RelView { r_id: next_rid(rels.rels), rel_type: rt, target_ref: target, is_external: false }),
            base: rels.base,
        }
    }
}

/// `/ppt/vbaProject.bin`
pub open spec fn vba_name() -> Seq<char> {
    "/ppt/vbaProject.bin"@
}

/// The VBA project bytes: the part the presentation part's first vbaProject relationship
/// points to; `Some(None)` without the relationship or the part; `None` without a
/// presentation part or when the relationship is external.
pub open spec fn vba_of(pkg: PackageView) -> Option<Option<Seq<u8>>> {
    match pres_index(pkg) {
        Some(pi) => match first_target(pkg.parts[pi], VBA_RT@) {
            Some(Some(n)) => match part_named(pkg, n) {
                Some(p) => Some(Some(p.blob)),
                None => Some(None),
            },
            Some(None) => Some(None),
            None => None,
        },
        None => None,
    }
}

/// What `set_vba_project` gives: the VBA part put in at `/ppt/vbaProject.bin`, and a
/// vbaProject relationship to it from the presentation part unless one exists; `None`
/// (an error, nothing changed) without a presentation part.
pub open spec fn vba_set(pkg: PackageView, data: Seq<u8>) -> Option<PackageView> {
    match (pres_index(pkg), pres_name(pkg)) {
        (Some(pi), Some(pn)) => {
            let vp = PartView {
                partname: vba_name(),
                content_type: VBA_CT@,
                blob: data,
                rels: RelsView { rels: Seq::empty(), base: base_uri_spec(vba_name()) },
            };
            let parts1 = put(pkg.parts, vp);
            let k = find_part(parts1, pn, 0).unwrap();
            let target = relative_ref_spec(vba_name(), base_uri_spec(pn));
            Some(PackageView {
                parts: parts1.update(k, PartView { rels: or_added(parts1[k].rels, VBA_RT@, target), ..parts1[k] }),
                pkg_rels: pkg.pkg_rels,
            })
        },
        _ => None,
    }
}

/// `</p:presentation>`
pub open spec fn pres_end() -> Seq<char> {
    "</p:presentation>"@
}

/// What `set_print_settings` gives: presentation.xml without its first `<p:prnPr>` element
/// and with the settings' element before the last `</p:presentation>`; `None` (an error,
/// nothing changed) without a presentation part, when it is not UTF-8, or has no end tag.
pub open spec fn print_settings_set(pkg: PackageView, s: PrintSettings) -> Option<PackageView> {
    match pres_index(pkg) {
        Some(pi) => match blob_text(pkg.parts[pi].blob) {
            Some(t) => {
                let t1 = removed_element(t, "p:prnPr"@);
                match rfind(t1, pres_end()) {
                    Some(q) => Some(with_blob(pkg, pi, encode_utf8(inserted(t1, q, print_settings_xml(s))))),
                    None => None,
                }
            },
            None => None,
        },
        None => None,
    }
}

/// The first tag from event `i` on whose local name is `prnPr` (start or empty-element),
/// given by its content and name length: `Ok(None)` when the end of input comes first,
/// `Err` when a reader error does.
pub open spec fn first_prn(ev: Seq<EventView>, i: int) -> Result<Option<(Seq<u8>, usize)>, ()>
    decreases ev.len() - i,
{
    if i < 0 || i >= ev.len() {
        Ok(None)
    } else {
        match ev[i] {
            EventView::Start(c, n) => if bytes_are(tag_local_name(c, n), "prnPr"@) { Ok(Some((c, n))) } else { first_prn(ev, i + 1) },
            EventView::Empty(c, n) => if bytes_are(tag_local_name(c, n), "prnPr"@) { Ok(Some((c, n))) } else { first_prn(ev, i + 1) },
            EventView::Eof => Ok(None),
            EventView::Error => Err(()),
            _ => first_prn(ev, i + 1),
        }
    }
}

/// The print settings of the presentation: read from the first element of presentation.xml
/// whose local name is `prnPr`, the defaults without one; `None` (an error) when
/// presentation.xml is missing or not UTF-8, when the reader fails before such an element,
/// or when the element's tag is not UTF-8.
pub open spec fn print_settings_of(pkg: PackageView) -> Option<Result<PrintSettings, PptxError>> {
    match pres_index(pkg) {
        Some(pi) => match blob_text(pkg.parts[pi].blob) {
            Some(_) => match first_prn(xml_events(pkg.parts[pi].blob), 0) {
                Ok(None) => Some(Ok(default_settings())),
                Ok(Some((c, n))) => match blob_text(c) {
                    Some(t) => Some(settings_from_element(t)),
                    None => None,
                },
                Err(_) => None,
            },
            None => None,
        },
        None => None,
    }
}

/// `/_xmlsignatures/origin.sigs`
pub open spec fn origin_name() -> Seq<char> {
    "/_xmlsignatures/origin.sigs"@
}

/// The package with the signature origin part and its package relationship, when it
/// has no origin part yet.
pub open spec fn with_origin(pkg: PackageView) -> PackageView {
    if has_part(pkg.parts, origin_name()) {
        pkg
    } else {
        PackageView {
            parts: put(
                pkg.parts,
                PartView {
                    partname: origin_name(),
                    content_type: DIGITAL_SIGNATURE_ORIGIN_CT@,
                    blob: Seq::empty(),
                    rels: RelsView { rels: Seq::empty(), base: base_uri_spec(origin_name()) },
                },
            ),
            pkg_rels: or_added(pkg.pkg_rels, DIGITAL_SIGNATURE_ORIGIN_RT@, "_xmlsignatures/origin.sigs"@),
        }
    }
}

/// What `add_digital_signature` gives: the origin part (created when missing), a new
/// signature part `/_xmlsignatures/sigN.xml` holding the signature's XML, and a signature
/// relationship from the origin to it.
pub open spec fn signature_added(pkg: PackageView, sig: DigitalSignature) -> PackageView {
    let p1 = with_origin(pkg);
    let name = next_partname_from(p1.parts, "/_xmlsignatures/sig"@, ".xml"@, 1);
    let sp = PartView {
        partname: name,
        content_type: DIGITAL_SIGNATURE_XML_CT@,
        blob: encode_utf8(xml_declaration() + signature_xml(sig)),
        rels: RelsView { rels: Seq::empty(), base: base_uri_spec(name) },
    };
    let parts2 = p1.parts.push(sp);
    let k = find_part(parts2, origin_name(), 0).unwrap();
    let op = parts2[k];
    let rel = RelView {
        r_id: next_rid(op.rels.rels),
        rel_type: DIGITAL_SIGNATURE_RT@,
        target_ref: relative_ref_spec(name, base_uri_spec(origin_name())),
        is_external: false,
    };
    PackageView {
        parts: parts2.update(k, PartView { rels: RelsView { rels: op.rels.rels.push(rel), base: op.rels.base }, ..op }),
        pkg_rels: p1.pkg_rels,
    }
}


proof fn lemma_put(parts: Seq<PartView>, p: PartView)
    ensures
        put(parts, p).len() == parts.len() || put(parts, p).len() == parts.len() + 1,
        forall|k: int| 0 <= k < put(parts, p).len() ==> #[trigger] put(parts, p)[k] == p || (k < parts.len()
            && put(parts, p)[k] == parts[k]),
        forall|k: int| 0 <= k < parts.len() ==> #[trigger] put(parts, p)[k].partname == parts[k].partname,
        find_part(put(parts, p), p.partname, 0) is Some,
{
    lemma_find_part_found(parts, p.partname, 0);
    let q = put(parts, p);
    match find_part(parts, p.partname, 0) {
        Some(i) => {
            lemma_find_part_found(q, p.partname, 0);
            assert(q[i].partname == p.partname);
        },
        None => {
            assert(q[parts.len() as int].partname == p.partname);
            lemma_find_part_found(q, p.partname, 0);
        },
    }
}

proof fn lemma_put_finds(parts: Seq<PartView>, p: PartView, n: Seq<char>)
    requires
        find_part(parts, n, 0) is Some,
    ensures
        find_part(put(parts, p), n, 0) is Some,
{
    lemma_put(parts, p);
    match find_part(parts, p.partname, 0) {
        Some(i) => {
            lemma_find_part_found(parts, p.partname, 0);
            assert(put(parts, p) == parts.update(i, p));
            lemma_find_part_names(parts, put(parts, p), n, 0);
        },
        None => {
            super::laws::lemma_find_part_push(parts, p, n, 0);
        },
    }
}

proof fn lemma_put_room(pkg: PackageView, p: PartView)
    requires
        rels_have_room(pkg),
        p.rels.rels.len() == 0,
    ensures
        rels_have_room(PackageView { parts: put(pkg.parts, p), pkg_rels: pkg.pkg_rels }),
{
    lemma_put(pkg.parts, p);
    let q = put(pkg.parts, p);
    assert forall|k: int| 0 <= k < q.len() implies #[trigger] q[k].rels.rels.len() + 1 < usize::MAX by {
        if q[k] != p {
            assert(q[k] == pkg.parts[k]);
        }
    }
}

proof fn lemma_found_in_range(parts: Seq<PartView>, n: Seq<char>)
    ensures
        find_part(parts, n, 0) matches Some(k) ==> 0 <= k < parts.len() && parts[k].partname == n,
{
    lemma_find_part_found(parts, n, 0);
}

/// Macro, print and signature methods.
impl Presentation {
    /// Whether the presentation part has the macro-enabled content type.
    pub fn is_macro_enabled(&self) -> (r: bool)
        ensures
            r == (pres_index(self@) matches Some(pi) && self@.parts[pi].content_type == PML_PRESENTATION_MACRO@),
    {
        proof { self.lemma_view(); }
        match self.presentation_part_index() {
            Ok(pi) => crate::enums::str_eq(self.package.part_at(pi).content_type.as_str(), PML_PRESENTATION_MACRO),
            Err(_) => false,
        }
    }

    /// Gives the presentation part the macro-enabled content type, as saving as .pptm does.
    pub fn mark_macro_enabled(&mut self) -> (r: Result<(), PptxError>)
        ensures
            match pres_index(old(self)@) {
                Some(pi) => r is Ok && final(self)@ == PackageView {
                    parts: old(self)@.parts.update(pi, PartView { content_type: PML_PRESENTATION_MACRO@, ..old(self)@.parts[pi] }),
                    pkg_rels: old(self)@.pkg_rels,
                },
                None => r is Err && final(self)@ == old(self)@,
            },
    {
        proof { self.lemma_view(); }
        let pi = self.presentation_part_index()?;
        self.package.set_content_type_at(pi, PML_PRESENTATION_MACRO);
        proof { self.lemma_view(); }
        Ok(())
    }

    /// The VBA project bytes, if the presentation has a VBA project part.
    pub fn vba_project(&self) -> (r: Result<Option<&[u8]>, PptxError>)
        ensures
            match vba_of(self@) {
                Some(Some(b)) => r matches Ok(Some(x)) && x@ == b,
                Some(None) => r matches Ok(None),
                None => r is Err,
            },
    {
        proof { self.lemma_view(); }
        let pi = self.presentation_part_index()?;
        let pp = self.package.part_at(pi);
        let rel = match pp.rels.by_reltype(VBA_RT) {
            Ok(x) => x,
            Err(_) => return Ok(None),
        };
        let n = rel.target_partname(pp.partname.base_uri().as_str())?;
        match self.package.part(&n) {
            Some(p) => Ok(Some(p.blob.as_slice())),
            None => Ok(None),
        }
    }

    /// Sets or replaces the VBA project (`/ppt/vbaProject.bin`), linking it from the
    /// presentation part when not yet linked.
    pub fn set_vba_project(&mut self, data: Vec<u8>) -> (r: Result<(), PptxError>)
        requires
            rels_have_room(old(self)@),
        ensures
            match vba_set(old(self)@, data@) {
                Some(p) => r is Ok && final(self)@ == p,
                None => r is Err && final(self)@ == old(self)@,
            },
    {
        proof { self.lemma_view(); lemma_pres_index(self@); }
        let _pi = self.presentation_part_index()?;
        let pres_partname = self.presentation_partname()?;
        let vba_partname = PackURI::from_string("/ppt/vbaProject.bin".to_owned());
        let rel_target = vba_partname.relative_ref(pres_partname.base_uri().as_str());
        let vba_part = Part::new(vba_partname, VBA_CT, data);
        let ghost pkg0 = self@;
        proof {
            lemma_put(pkg0.parts, vba_part@);
            lemma_put_finds(pkg0.parts, vba_part@, pres_partname@);
            lemma_put_room(pkg0, vba_part@);
        }
        self.package.put_part(vba_part);
        proof { self.lemma_view(); }
        let ghost parts1 = self@.parts;
        assert(parts1 == put(pkg0.parts, vba_part@));
        let k = match self.package.part_index(pres_partname.as_str()) {
            Some(k) => k,
            None => return Err(PptxError::PartNotFound(pres_partname.to_string())),
        };
        proof { lemma_found_in_range(self@.parts, pres_partname@); }
        assert(parts1[k as int].rels.rels.len() + 1 < usize::MAX);
        let mut rels = self.package.take_rels_at(k);
        let _ = rels.or_add(VBA_RT, rel_target.as_str(), false);
        assert(rels@ == or_added(parts1[k as int].rels, VBA_RT@, rel_target@));
        self.package.set_rels_at(k, rels);
        proof { self.lemma_view(); }
        assert(self@.parts =~= parts1.update(k as int, PartView { rels: or_added(parts1[k as int].rels, VBA_RT@, rel_target@), ..parts1[k as int] }));
        Ok(())
    }

    /// Writes print settings into presentation.xml, replacing its first `<p:prnPr>`
    /// element (see `print_settings_set`).
    pub fn set_print_settings(&mut self, settings: &PrintSettings) -> (r: Result<(), PptxError>)
        ensures
            match print_settings_set(old(self)@, *settings) {
                Some(p) => r is Ok && final(self)@ == p,
                None => r is Err && final(self)@ == old(self)@,
            },
            r matches Err(e) ==> (pres_index(old(self)@) is Some ==> e is InvalidXml),
    {
        proof { self.lemma_view(); }
        let pi = self.presentation_part_index()?;
        let t = crate::slide::blob_chars(self.package.part_at(pi).blob.as_slice())?;
        let t1 = crate::edit::remove_element_chars(&t, "p:prnPr");
        let end = crate::text::str_to_chars("</p:presentation>");
        assert(end@ == pres_end());
        match crate::edit::rfind_chars(&t1, &end) {
            Some(q) => {
                proof { crate::edit::lemma_rfind_from(t1@, end@, t1@.len() - end@.len()); }
                let xml = settings.to_xml_string();
                let u = crate::edit::insert_at(&t1, q, xml.as_str());
                let ghost pkg0 = self@;
                assert(blob_text(pkg0.parts[pi as int].blob) == Some(t@));
                assert(rfind(t1@, pres_end()) == Some(q as int));
                assert(xml@ == print_settings_xml(*settings));
                let nb = crate::slide::chars_blob(&u);
                assert(nb@ == encode_utf8(inserted(removed_element(t@, "p:prnPr"@), q as int, print_settings_xml(*settings))));
                assert(print_settings_set(pkg0, *settings) == Some(with_blob(pkg0, pi as int, nb@)));
                self.package.set_blob_at(pi, nb);
                proof { self.lemma_view(); }
                assert(self@.parts =~= with_blob(pkg0, pi as int, nb@).parts);
                Ok(())
            },
            None => Err(PptxError::InvalidXml("presentation XML has no </p:presentation>".to_owned())),
        }
    }

    /// The print settings in presentation.xml (see `print_settings_of`).
    pub fn print_settings(&self) -> (r: Result<PrintSettings, PptxError>)
        ensures
            match print_settings_of(self@) {
                Some(x) => r == x,
                None => r is Err,
            },
    {
        proof { self.lemma_view(); lemma_pres_index(self@); }
        let pres = self.presentation_part()?;
        let blob = pres.blob.as_slice();
        let ghost pi = pres_index(self@).unwrap();
        if crate::text::str_from_utf8(blob).is_none() {
            return Err(PptxError::InvalidXml("presentation part is not UTF-8".to_owned()));
        }
        let n = blob.len();
        let mut reader = xml_reader(blob);
        let ghost ev = xml_events(blob@);
        let ghost mut i: int = 0;
        loop
            invariant
                ev == xml_events(blob@),
                pres_index(self@) == Some(pi),
                blob@ == self@.parts[pi].blob,
                blob_text(blob@) is Some,
                0 < ev.len() <= n + 1,
                is_final(ev.last()),
                forall|k: int| 0 <= k < ev.len() - 1 ==> !is_final(#[trigger] ev[k]),
                0 <= i < ev.len(),
                reader_events(reader) == ev.subrange(i, ev.len() as int),
                first_prn(ev, 0) == first_prn(ev, i),
            decreases ev.len() - i,
        {
            let e = next_event(&mut reader);
            proof {
                if i < ev.len() - 1 {
                    assert(ev.subrange(i, ev.len() as int).drop_first() == ev.subrange(i + 1, ev.len() as int));
                }
            }
            match e {
                XmlEvent::Start(c, k) | XmlEvent::Empty(c, k) => {
                    let ln = tag_local(c.as_slice(), k);
                    if bytes_equal_str(ln.as_slice(), "prnPr") {
                        return match crate::text::str_from_utf8(c.as_slice()) {
                            Some(t) => PrintSettings::from_xml_element(t),
                            None => Err(PptxError::InvalidXml("p:prnPr tag is not UTF-8".to_owned())),
                        };
                    }
                },
                XmlEvent::Eof => {
                    return Ok(PrintSettings::new());
                },
                XmlEvent::Error => {
                    return Err(PptxError::Xml);
                },
                _ => {},
            }
            proof { i = i + 1; }
        }
    }

    /// Adds a digital signature part (see `signature_added`).
    pub fn add_digital_signature(&mut self, sig: &DigitalSignature) -> (r: Result<(), PptxError>)
        requires
            old(self)@.parts.len() + 2 < usize::MAX,
            old(self)@.pkg_rels.rels.len() + 1 < usize::MAX,
            rels_have_room(old(self)@),
        ensures
            r is Ok,
            final(self)@ == signature_added(old(self)@, *sig),
    {
        proof { self.lemma_view(); }
        let origin_uri = PackURI::from_string("/_xmlsignatures/origin.sigs".to_owned());
        let ghost pkg0 = self@;
        assert(origin_uri@ == origin_name());
        proof { lemma_find_part_found(pkg0.parts, origin_name(), 0); }
        if self.package.part(&origin_uri).is_none() {
            let origin_part = Part::new(origin_uri.copied(), DIGITAL_SIGNATURE_ORIGIN_CT, Vec::new());
            proof {
                lemma_put_room(pkg0, origin_part@);
                lemma_put(pkg0.parts, origin_part@);
            }
            self.package.put_part(origin_part);
            let ghost prels = self.package@.pkg_rels;
            let _ = self.package.pkg_rels_mut().or_add(DIGITAL_SIGNATURE_ORIGIN_RT, "_xmlsignatures/origin.sigs", false);
            proof { self.lemma_view(); }
            assert(self@.pkg_rels == or_added(prels, DIGITAL_SIGNATURE_ORIGIN_RT@, "_xmlsignatures/origin.sigs"@));
            assert(!has_part(pkg0.parts, origin_name()));
            assert(self@ == with_origin(pkg0));
        } else {
            assert(has_part(pkg0.parts, origin_name()));
        }
        let ghost p1 = self@;
        assert(p1 == with_origin(pkg0));
        assert(rels_have_room(p1));
        assert(find_part(p1.parts, origin_name(), 0) is Some) by {
            if !has_part(pkg0.parts, origin_name()) {
                lemma_put(pkg0.parts, PartView {
                    partname: origin_name(),
                    content_type: DIGITAL_SIGNATURE_ORIGIN_CT@,
                    blob: Seq::empty(),
                    rels: RelsView { rels: Seq::empty(), base: base_uri_spec(origin_name()) },
                });
            }
        }
        let sig_partname = self.package.next_partname("/_xmlsignatures/sig", ".xml");
        let sig_xml = crate::signature::signature_to_xml(sig);
        let sig_part = Part::new(sig_partname.copied(), DIGITAL_SIGNATURE_XML_CT, sig_xml);
        proof {
            lemma_find_part_found(self@.parts, sig_partname@, 0);
            super::laws::lemma_find_part_push(p1.parts, sig_part@, origin_name(), 0);
        }
        self.package.put_part(sig_part);
        proof { self.lemma_view(); }
        let ghost parts2 = self@.parts;
        assert(parts2 == p1.parts.push(sig_part@));
        let rel_target = sig_partname.relative_ref(origin_uri.base_uri().as_str());
        let k = match self.package.part_index(origin_uri.as_str()) {
            Some(k) => k,
            None => return Err(PptxError::PartNotFound(origin_uri.to_string())),
        };
        proof { lemma_found_in_range(parts2, origin_name()); }
        assert(parts2[k as int] == p1.parts[k as int]);
        let mut rels = self.package.take_rels_at(k);
        let rid = rels.add_relationship(DIGITAL_SIGNATURE_RT, rel_target.as_str(), false);
        self.package.set_rels_at(k, rels);
        proof { self.lemma_view(); }
        assert(self@.parts =~= signature_added(pkg0, *sig).parts);
        Ok(())
    }
}

} // verus!
