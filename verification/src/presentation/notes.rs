//! Notes slides and the notes master.
use vstd::prelude::*;
use vstd::utf8::encode_utf8;
use crate::error::PptxError;
use crate::opc::content_type::{PML_NOTES_SLIDE, PML_NOTES_MASTER};
use crate::opc::package::{Part, PackageView, PartView, RelView, RelsView, find_type, find_part, next_rid, next_partname_from};
use crate::opc::relationship_type::{NOTES_SLIDE, NOTES_MASTER, SLIDE, THEME};
use crate::opc::uri::{PackURI, resolve, relative_ref_spec, base_uri_spec};
use crate::slide::{new_notes_slide_text, new_notes_master_text, notes_text_of, part_name_attr, with_solid_bg_bytes};
use crate::units::RelationshipId;
use super::{Presentation, pres_index, pres_name, part_dir, part_named, lemma_pres_index};
use super::slides::{SlideRef, rels_have_room, lemma_next_rid_nonempty};

verus! {

/// The notes slide of a slide.
#[derive(Debug, Clone)]
pub struct NotesSlideRef {
    pub partname: PackURI,
}

/// A notes slide as read: its name (the `name` of its `<p:cSld>`), its part name, its
/// text and its shapes.
#[derive(Debug)]
pub struct NotesSlide {
    pub name: Option<String>,
    pub part_name: Option<String>,
    pub text: String,
    pub shapes: Vec<crate::shapes::model::Shape>,
}

impl NotesSlide {
    /// The shapes of the notes slide's shape tree.
    pub fn shapes(&self) -> (r: &Vec<crate::shapes::model::Shape>)
        ensures
            r@ == self.shapes@,
    {
        &self.shapes
    }

    /// The shapes that are placeholders, in order.
    pub fn placeholders(&self) -> (r: Vec<&crate::shapes::model::Shape>)
        ensures
            r@.len() == crate::shapes::shapetree::placeholder_positions(self.shapes@).len(),
            forall|k: int| 0 <= k < r@.len() ==> *#[trigger] r@[k] == self.shapes@[crate::shapes::shapetree::placeholder_positions(self.shapes@)[k]],
    {
        crate::shapes::shapetree::placeholders_of(&self.shapes)
    }

    /// The first shape that is a body placeholder: the notes text's placeholder.
    pub fn notes_placeholder(&self) -> (r: Option<&crate::shapes::model::Shape>)
        ensures
            match first_body(self.shapes@, 0) {
                Some(k) => r matches Some(x) && *x == self.shapes@[k],
                None => r is None,
            },
    {
        let mut i: usize = 0;
        while i < self.shapes.len()
            invariant
                i <= self.shapes@.len(),
                first_body(self.shapes@, 0) == first_body(self.shapes@, i as int),
            decreases self.shapes.len() - i,
        {
            let b = match self.shapes[i].placeholder() {
                Some(p) => p.ph_type == Some(crate::enums::PpPlaceholderType::Body),
                None => false,
            };
            if b {
                return Some(&self.shapes[i]);
            }
            i = i + 1;
        }
        None
    }

    /// The text of the notes: its text runs joined.
    pub fn notes_text(&self) -> (r: &str)
        ensures
            r@ == self.text@,
    {
        self.text.as_str()
    }
}

/// The position of the first body placeholder at or after `i`.
pub open spec fn first_body(v: Seq<crate::shapes::model::Shape>, i: int) -> Option<int>
    decreases v.len() - i,
{
    if i < 0 || i >= v.len() {
        None
    } else if crate::shapes::model::placeholder_of_shape(v[i]) matches Some(p) && p.ph_type == Some(crate::enums::PpPlaceholderType::Body) {
        Some(i)
    } else {
        first_body(v, i + 1)
    }
}

/// The notes master: its relationship id from the presentation part and its part name.
#[derive(Debug, Clone)]
pub struct NotesMasterRef {
    pub r_id: RelationshipId,
    pub partname: PackURI,
}

impl View for NotesMasterRef {
    type V = (Seq<char>, Seq<char>);

    open spec fn view(&self) -> (Seq<char>, Seq<char>) {
        (self.r_id@, self.partname@)
    }
}

/// Where the first relationship of type `rt` of part `p` points: `Some(None)` without
/// one, `None` when it is external.
pub open spec fn first_target(p: PartView, rt: Seq<char>) -> Option<Option<Seq<char>>> {
    match find_type(p.rels.rels, rt, 0) {
        Some(j) => if p.rels.rels[j].is_external { None } else { Some(Some(resolve(part_dir(p), p.rels.rels[j].target_ref))) },
        None => Some(None),
    }
}

/// Where a new notes slide goes: `/ppt/notesSlides/notesSlideN.xml` with the first unused N.
pub open spec fn new_notes_name(pkg: PackageView) -> Seq<char> {
    next_partname_from(pkg.parts, "/ppt/notesSlides/notesSlide"@, ".xml"@, 1)
}

/// What `notes_slide_or_create` gives for the slide named `slide`: the notes slide's part
/// name and the package; `None` (an error, nothing changed) when the slide's part is
/// missing or its notes relationship is external.
pub open spec fn notes_created(pkg: PackageView, slide: Seq<char>) -> Option<(Seq<char>, PackageView)> {
    match find_part(pkg.parts, slide, 0) {
        Some(si) => {
            let sp = pkg.parts[si];
            match first_target(sp, NOTES_SLIDE@) {
                Some(Some(n)) => Some((n, pkg)),
                Some(None) => {
                    let name = new_notes_name(pkg);
                    let np = PartView {
                        partname: name,
                        content_type: PML_NOTES_SLIDE@,
                        blob: encode_utf8(new_notes_slide_text()),
                        rels: RelsView {
                            rels: seq![RelView {
                                r_id: next_rid(Seq::empty()),
                                rel_type: SLIDE@,
                                target_ref: relative_ref_spec(slide, base_uri_spec(name)),
                                is_external: false,
                            }],
                            base: base_uri_spec(name),
                        },
                    };
                    let rel = RelView {
                        r_id: next_rid(sp.rels.rels),
                        rel_type: NOTES_SLIDE@,
                        target_ref: relative_ref_spec(name, base_uri_spec(slide)),
                        is_external: false,
                    };
                    let nsp = PartView { rels: RelsView { rels: sp.rels.rels.push(rel), base: sp.rels.base }, ..sp };
                    Some((name, PackageView { parts: pkg.parts.push(np).update(si, nsp), pkg_rels: pkg.pkg_rels }))
                },
                None => None,
            }
        },
        None => None,
    }
}

/// The notes slide part of the slide named `slide`: `Some(None)` when the slide has no
/// notes relationship; `None` when its part, the notes part, or a readable relationship
/// is missing.
pub open spec fn notes_part_of(pkg: PackageView, slide: Seq<char>) -> Option<Option<PartView>> {
    match part_named(pkg, slide) {
        Some(sp) => match first_target(sp, NOTES_SLIDE@) {
            Some(Some(n)) => match part_named(pkg, n) {
                Some(np) => Some(Some(np)),
                None => None,
            },
            Some(None) => Some(None),
            None => None,
        },
        None => None,
    }
}

/// The notes master of the presentation: the first notesMaster relationship of the
/// presentation part, resolved; `Some(None)` without one; `None` without a presentation
/// part or when the relationship is external.
pub open spec fn notes_master_of(pkg: PackageView) -> Option<Option<(Seq<char>, Seq<char>)>> {
    match pres_index(pkg) {
        Some(pi) => {
            let pp = pkg.parts[pi];
            match find_type(pp.rels.rels, NOTES_MASTER@, 0) {
                Some(j) => if pp.rels.rels[j].is_external {
                    None
                } else {
                    Some(Some((pp.rels.rels[j].r_id, resolve(part_dir(pp), pp.rels.rels[j].target_ref))))
                },
                None => Some(None),
            }
        },
        None => None,
    }
}

/// Where a new notes master goes.
pub open spec fn new_notes_master_name(pkg: PackageView) -> Seq<char> {
    next_partname_from(pkg.parts, "/ppt/notesMasters/notesMaster"@, ".xml"@, 1)
}

/// The relationships of a new notes master: to the presentation's first theme, when the
/// presentation part has a theme relationship.
pub open spec fn notes_master_rels(pp: PartView, name: Seq<char>) -> Option<Seq<RelView>> {
    match first_target(pp, THEME@) {
        Some(Some(t)) => Some(seq![RelView {
            r_id: next_rid(Seq::empty()),
            rel_type: THEME@,
            target_ref: relative_ref_spec(t, base_uri_spec(name)),
            is_external: false,
        }]),
        Some(None) => Some(Seq::empty()),
        None => None,
    }
}

/// What `notes_master_or_create` gives: the notes master and the package; `None` (an
/// error, nothing changed) without a presentation part, when a relationship is external,
/// or when the new relationship id is empty.
pub open spec fn notes_master_created(pkg: PackageView) -> Option<((Seq<char>, Seq<char>), PackageView)> {
    match notes_master_of(pkg) {
        Some(Some(m)) => if m.0.len() > 0 { Some((m, pkg)) } else { None },
        Some(None) => {
            let pi = pres_index(pkg).unwrap();
            let pp = pkg.parts[pi];
            let name = new_notes_master_name(pkg);
            match notes_master_rels(pp, name) {
                Some(nrels) => {
                    let np = PartView {
                        partname: name,
                        content_type: PML_NOTES_MASTER@,
                        blob: encode_utf8(new_notes_master_text()),
                        rels: RelsView { rels: nrels, base: base_uri_spec(name) },
                    };
                    let rid = next_rid(pp.rels.rels);
                    let rel = RelView {
                        r_id: rid,
                        rel_type: NOTES_MASTER@,
                        target_ref: relative_ref_spec(name, base_uri_spec(pres_name(pkg).unwrap())),
                        is_external: false,
                    };
                    let npp = PartView { rels: RelsView { rels: pp.rels.rels.push(rel), base: pp.rels.base }, ..pp };
                    Some(((rid, name), PackageView { parts: pkg.parts.push(np).update(pi, npp), pkg_rels: pkg.pkg_rels }))
                },
                None => None,
            }
        },
        None => None,
    }
}

/// Notes methods.
impl Presentation {
    /// The notes slide of a slide, created (empty, and linked both ways) when the slide has
    /// none.
    pub fn notes_slide_or_create(&mut self, slide_ref: &SlideRef) -> (r: Result<NotesSlideRef, PptxError>)
        requires
            old(self)@.parts.len() + 1 < usize::MAX,
            rels_have_room(old(self)@),
        ensures
            match notes_created(old(self)@, slide_ref@.1) {
                Some((n, p)) => r matches Ok(x) && x.partname@ == n && final(self)@ == p,
                None => r is Err && final(self)@ == old(self)@,
            },
    {
        proof { self.lemma_view(); }
        let si = match self.package.part_index(slide_ref.partname.as_str()) {
            Some(i) => i,
            None => return Err(PptxError::PartNotFound(slide_ref.partname.to_string())),
        };
        proof { crate::opc::package::lemma_find_part_found(self@.parts, slide_ref@.1, 0); }
        let sdir = self.package.part_at(si).partname.base_uri();
        match self.package.part_at(si).rels.by_reltype(NOTES_SLIDE) {
            Ok(rel) => {
                let partname = rel.target_partname(sdir.as_str())?;
                return Ok(NotesSlideRef { partname });
            },
            Err(_) => {},
        }
        let notes_partname = self.package.next_partname("/ppt/notesSlides/notesSlide", ".xml");
        let slide_target = slide_ref.partname.relative_ref(notes_partname.base_uri().as_str());
        let notes_target = notes_partname.relative_ref(slide_ref.partname.base_uri().as_str());
        let mut notes_part = Part::new(notes_partname.copied(), PML_NOTES_SLIDE, crate::slide::new_notes_slide_xml());
        notes_part.rels.add_relationship(SLIDE, slide_target.as_str(), false);
        let ghost pkg0 = self@;
        proof { crate::opc::package::lemma_find_part_found(self@.parts, notes_partname@, 0); }
        self.package.put_part(notes_part);
        proof { self.lemma_view(); }
        let mut rels = self.package.take_rels_at(si);
        let rid = rels.add_relationship(NOTES_SLIDE, notes_target.as_str(), false);
        self.package.set_rels_at(si, rels);
        proof { self.lemma_view(); }
        assert(self@.parts =~= pkg0.parts.push(notes_part@).update(si as int, PartView {
            rels: RelsView { rels: pkg0.parts[si as int].rels.rels.push(RelView {
                r_id: rid@, rel_type: NOTES_SLIDE@, target_ref: notes_target@, is_external: false }), base: pkg0.parts[si as int].rels.base },
            ..pkg0.parts[si as int]
        }));
        Ok(NotesSlideRef { partname: notes_partname })
    }

    /// Whether a slide has a notes slide relationship (false when its part is missing).
    pub fn has_notes_slide(&self, slide_ref: &SlideRef) -> (r: bool)
        ensures
            r == (part_named(self@, slide_ref@.1) matches Some(sp) && find_type(sp.rels.rels, NOTES_SLIDE@, 0) is Some),
    {
        proof { self.lemma_view(); }
        match self.package.part(&slide_ref.partname) {
            Some(p) => p.rels.index_of_type(NOTES_SLIDE).is_some(),
            None => false,
        }
    }

    fn notes_part(&self, slide_ref: &SlideRef) -> (r: Result<Option<&Part>, PptxError>)
        ensures
            match notes_part_of(self@, slide_ref@.1) {
                Some(Some(np)) => r matches Ok(Some(x)) && x@ == np,
                Some(None) => r matches Ok(None),
                None => r is Err,
            },
    {
        proof { self.lemma_view(); }
        let sp = match self.package.part(&slide_ref.partname) {
            Some(p) => p,
            None => return Err(PptxError::PartNotFound(slide_ref.partname.to_string())),
        };
        let rel = match sp.rels.by_reltype(NOTES_SLIDE) {
            Ok(x) => x,
            Err(_) => return Ok(None),
        };
        let n = rel.target_partname(sp.partname.base_uri().as_str())?;
        match self.package.part(&n) {
            Some(np) => Ok(Some(np)),
            None => Err(PptxError::PartNotFound(n.to_string())),
        }
    }

    /// The text of a slide's notes (see `notes_text_of`); `Ok(None)` without a notes slide.
    pub fn notes_slide_text(&self, slide_ref: &SlideRef) -> (r: Result<Option<String>, PptxError>)
        ensures
            match notes_part_of(self@, slide_ref@.1) {
                Some(Some(np)) => match notes_text_of(np.blob) {
                    Some(t) => r matches Ok(Some(x)) && x@ == t,
                    None => r is Err,
                },
                Some(None) => r matches Ok(None),
                None => r is Err,
            },
    {
        match self.notes_part(slide_ref)? {
            Some(np) => Ok(Some(crate::slide::parse_notes_slide_text(np.blob.as_slice())?)),
            None => Ok(None),
        }
    }

    /// A slide's notes slide, read; `Ok(None)` without one.
    pub fn notes_slide(&self, slide_ref: &SlideRef) -> (r: Result<Option<NotesSlide>, PptxError>)
        ensures
            match notes_part_of(self@, slide_ref@.1) {
                Some(Some(np)) => match (part_name_attr(np.blob), notes_text_of(np.blob), crate::shapes::parse::shapes_read(np.blob)) {
                    (Some(n), Some(t), Ok(l)) => r matches Ok(Some(x)) && x.text@ == t
                        && (match (x.name, n) { (Some(a), Some(b)) => a@ == b, (None, None) => true, _ => false })
                        && (x.part_name matches Some(pn) && pn@ == np.partname)
                        && crate::shapes::parse::shapes_are(x.shapes@, l),
                    _ => r is Err,
                },
                Some(None) => r matches Ok(None),
                None => r is Err,
            },
    {
        match self.notes_part(slide_ref)? {
            Some(np) => {
                let name = crate::slide::parse_slide_name(np.blob.as_slice())?;
                let text = crate::slide::parse_notes_slide_text(np.blob.as_slice())?;
                let shapes = crate::shapes::parse::parse_shapes_from_slide_xml(np.blob.as_slice())?;
                Ok(Some(NotesSlide { name, part_name: Some(np.partname.to_string()), text, shapes }))
            },
            None => Ok(None),
        }
    }

    /// The shapes of a slide that are placeholders, in order; an error when the slide is
    /// not in the package or its shapes cannot be read.
    pub fn slide_placeholders(&self, slide_ref: &SlideRef) -> (r: Result<Vec<crate::shapes::model::Shape>, PptxError>)
        ensures
            match part_named(self@, slide_ref@.1) {
                Some(p) => match crate::shapes::parse::shapes_read(p.blob) {
                    Ok(l) => r matches Ok(v) && crate::shapes::parse::shapes_are(v@, crate::shapes::parse::placeholders_read(l)),
                    Err(f) => r matches Err(e) && crate::shapes::parse::shape_fail_is(e, f),
                },
                None => r is Err,
            },
    {
        let xml = self.slide_xml(slide_ref)?;
        crate::shapes::parse::placeholder_shapes(xml)
    }

    /// The name of a slide's notes slide; `Ok(None)` without a notes slide or a name.
    pub fn notes_slide_name(&self, slide_ref: &SlideRef) -> (r: Result<Option<String>, PptxError>)
        ensures
            match notes_part_of(self@, slide_ref@.1) {
                Some(Some(np)) => match part_name_attr(np.blob) {
                    Some(Some(n)) => r matches Ok(Some(x)) && x@ == n,
                    Some(None) => r matches Ok(None),
                    None => r is Err,
                },
                Some(None) => r matches Ok(None),
                None => r is Err,
            },
    {
        match self.notes_part(slide_ref)? {
            Some(np) => crate::slide::parse_slide_name(np.blob.as_slice()),
            None => Ok(None),
        }
    }

    /// Sets a solid background of color `color` (hex RGB such as `0000FF`) on a slide's
    /// notes slide; an error when the slide has none.
    pub fn set_notes_slide_background_solid(&mut self, slide_ref: &SlideRef, color: &str) -> (r: Result<(), PptxError>)
        ensures
            match part_named(old(self)@, slide_ref@.1) {
                Some(sp) => match first_target(sp, NOTES_SLIDE@) {
                    Some(Some(n)) => match find_part(old(self)@.parts, n, 0) {
                        Some(k) => match with_solid_bg_bytes(old(self)@.parts[k].blob, color@) {
                            Some(b) => r is Ok && final(self)@ == super::with_blob(old(self)@, k, b),
                            None => r is Err && final(self)@ == old(self)@,
                        },
                        None => r is Err && final(self)@ == old(self)@,
                    },
                    _ => r is Err && final(self)@ == old(self)@,
                },
                None => r is Err && final(self)@ == old(self)@,
            },
    {
        proof { self.lemma_view(); }
        let n = {
            let sp = match self.package.part(&slide_ref.partname) {
                Some(p) => p,
                None => return Err(PptxError::PartNotFound(slide_ref.partname.to_string())),
            };
            let rel = match sp.rels.by_reltype(NOTES_SLIDE) {
                Ok(x) => x,
                Err(_) => return Err(PptxError::PartNotFound("slide has no notes slide".to_owned())),
            };
            rel.target_partname(sp.partname.base_uri().as_str())?
        };
        let k = match self.package.part_index(n.as_str()) {
            Some(k) => k,
            None => return Err(PptxError::PartNotFound(n.to_string())),
        };
        proof { crate::opc::package::lemma_find_part_found(self@.parts, n@, 0); }
        let mut blob = self.package.part_at(k).blob.clone();
        assert(blob@ == self@.parts[k as int].blob);
        crate::slide::set_slide_background_solid(&mut blob, color)?;
        self.package.set_blob_at(k, blob);
        proof { self.lemma_view(); }
        Ok(())
    }

    /// The notes master; `Ok(None)` when the presentation has none.
    pub fn notes_master(&self) -> (r: Result<Option<NotesMasterRef>, PptxError>)
        ensures
            match notes_master_of(self@) {
                Some(Some(m)) => if m.0.len() > 0 { r matches Ok(Some(x)) && x@ == m } else { r is Err },
                Some(None) => r matches Ok(None),
                None => r is Err,
            },
    {
        proof { self.lemma_view(); }
        let pi = self.presentation_part_index()?;
        let pp = self.package.part_at(pi);
        match pp.rels.by_reltype(NOTES_MASTER) {
            Ok(rel) => {
                let partname = rel.target_partname(pp.partname.base_uri().as_str())?;
                let r_id = match RelationshipId::try_from(rel.r_id.as_str()) {
                    Ok(x) => x,
                    Err(_) => return Err(PptxError::InvalidXml(rel.r_id.clone())),
                };
                Ok(Some(NotesMasterRef { r_id, partname }))
            },
            Err(_) => Ok(None),
        }
    }

    /// The notes master, created (empty, linked to the presentation and to its first
    /// theme) when there is none.
    pub fn notes_master_or_create(&mut self) -> (r: Result<NotesMasterRef, PptxError>)
        requires
            old(self)@.parts.len() + 1 < usize::MAX,
            rels_have_room(old(self)@),
        ensures
            match notes_master_created(old(self)@) {
                Some((m, p)) => r matches Ok(x) && x@ == m && final(self)@ == p,
                None => r is Err && final(self)@ == old(self)@,
            },
    {
        proof { self.lemma_view(); lemma_pres_index(self@); }
        match self.notes_master()? {
            Some(existing) => return Ok(existing),
            None => {},
        }
        let pi = self.presentation_part_index()?;
        let nm_partname = self.package.next_partname("/ppt/notesMasters/notesMaster", ".xml");
        let mut nm_part = Part::new(nm_partname.copied(), PML_NOTES_MASTER, crate::slide::new_notes_master_xml());
        {
            let pp = self.package.part_at(pi);
            match pp.rels.by_reltype(THEME) {
                Ok(trel) => {
                    let theme_partname = trel.target_partname(pp.partname.base_uri().as_str())?;
                    let theme_target = theme_partname.relative_ref(nm_partname.base_uri().as_str());
                    nm_part.rels.add_relationship(THEME, theme_target.as_str(), false);
                },
                Err(_) => {},
            }
        }
        let pres_partname = self.presentation_partname()?;
        let nm_target = nm_partname.relative_ref(pres_partname.base_uri().as_str());
        proof { crate::opc::package::lemma_find_part_found(self@.parts, nm_partname@, 0); }
        let ghost pkg0 = self@;
        assert(notes_master_rels(pkg0.parts[pi as int], nm_partname@) == Some(nm_part@.rels.rels));
        self.package.put_part(nm_part);
        proof { self.lemma_view(); }
        let mut rels = self.package.take_rels_at(pi);
        let rid = rels.add_relationship(NOTES_MASTER, nm_target.as_str(), false);
        self.package.set_rels_at(pi, rels);
        proof { self.lemma_view(); lemma_next_rid_nonempty(pkg0.parts[pi as int].rels.rels, 1); }
        assert(self@.parts =~= pkg0.parts.push(nm_part@).update(pi as int, PartView {
            rels: RelsView { rels: pkg0.parts[pi as int].rels.rels.push(RelView {
                r_id: rid@, rel_type: NOTES_MASTER@, target_ref: nm_target@, is_external: false }), base: pkg0.parts[pi as int].rels.base },
            ..pkg0.parts[pi as int]
        }));
        let r_id = match RelationshipId::try_from(rid.as_str()) {
            Ok(x) => x,
            Err(_) => return Err(PptxError::InvalidXml(rid)),
        };
        Ok(NotesMasterRef { r_id, partname: nm_partname })
    }

    /// The bytes of the notes master's part.
    pub fn notes_master_xml(&self, nm_ref: &NotesMasterRef) -> (r: Result<&[u8], PptxError>)
        ensures
            match part_named(self@, nm_ref@.1) {
                Some(p) => r matches Ok(b) && b@ == p.blob,
                None => r is Err,
            },
    {
        proof { self.lemma_view(); }
        match self.package.part(&nm_ref.partname) {
            Some(p) => Ok(p.blob.as_slice()),
            None => Err(PptxError::PartNotFound(nm_ref.partname.to_string())),
        }
    }
}


} // verus!
