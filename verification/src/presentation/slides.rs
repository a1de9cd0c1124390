//! Slides: listing, adding, moving, deleting, the slide size and slide names.
use vstd::prelude::*;
use crate::error::PptxError;
use crate::id_list::Entry;
use crate::opc::package::{Part, PackageView, PartView, RelView, RelsView, find_rid, find_part, next_rid, next_partname_from};
use crate::opc::uri::{PackURI, resolve, relative_ref_spec, base_uri_spec};
use crate::opc::content_type::PML_SLIDE;
use crate::opc::relationship_type::{SLIDE, SLIDE_LAYOUT};
use crate::slide::{
    slide_entries, with_slide_entries, new_slide_id, new_slide_text, moved, without_rid, slide_size_of, resized,
    part_name_attr,
};
use crate::units::RelationshipId;
use vstd::utf8::encode_utf8;
use super::{Presentation, pres_index, part_dir, with_blob, part_named, lemma_pres_index};

verus! {

/// A slide of the presentation: its relationship id from the presentation part and
/// its part name.
#[derive(Debug, Clone)]
pub struct SlideRef {
    pub r_id: RelationshipId,
    pub partname: PackURI,
}

impl View for SlideRef {
    type V = (Seq<char>, Seq<char>);

    open spec fn view(&self) -> (Seq<char>, Seq<char>) {
        (self.r_id@, self.partname@)
    }
}

impl SlideRef {
    /// A copy of this reference.
    pub fn copied(&self) -> (r: SlideRef)
        ensures
            r@ == self@,
    {
        SlideRef { r_id: self.r_id.copied(), partname: self.partname.copied() }
    }
}

/// The slide entries of the presentation part.
pub open spec fn slide_list(pkg: PackageView) -> Option<Seq<Entry>> {
    match pres_index(pkg) {
        Some(i) => slide_entries(pkg.parts[i].blob),
        None => None,
    }
}

/// Each entry's relationship id with the part name its relationship resolves to against
/// `base`; `None` when an id has no relationship or its relationship is external.
pub open spec fn resolved_refs(l: Seq<Entry>, rels: Seq<RelView>, base: Seq<char>) -> Option<Seq<(Seq<char>, Seq<char>)>>
    decreases l.len(),
{
    if l.len() == 0 {
        Some(Seq::empty())
    } else {
        match resolved_refs(l.drop_last(), rels, base) {
            Some(prev) => match find_rid(rels, l.last().0, 0) {
                Some(j) => if rels[j].is_external {
                    None
                } else {
                    Some(prev.push((l.last().0, resolve(base, rels[j].target_ref))))
                },
                None => None,
            },
            None => None,
        }
    }
}

/// The slides of the presentation, in order: (relationship id, part name).
pub open spec fn slides_of(pkg: PackageView) -> Option<Seq<(Seq<char>, Seq<char>)>> {
    match pres_index(pkg) {
        Some(i) => match slide_entries(pkg.parts[i].blob) {
            Some(l) => resolved_refs(l, pkg.parts[i].rels.rels, part_dir(pkg.parts[i])),
            None => None,
        },
        None => None,
    }
}

/// Index of the first reference at or after `i` whose part name is `name`.
pub open spec fn index_of_part(v: Seq<(Seq<char>, Seq<char>)>, name: Seq<char>, i: int) -> Option<int>
    decreases v.len() - i,
{
    if i < 0 || i >= v.len() {
        None
    } else if v[i].1 == name {
        Some(i)
    } else {
        index_of_part(v, name, i + 1)
    }
}

/// Slide methods.
impl Presentation {
    /// The slides, in order.
    pub fn slides(&self) -> (r: Result<Vec<SlideRef>, PptxError>)
        ensures
            match slides_of(self@) {
                Some(v) => r matches Ok(x) && x@.len() == v.len() && forall|k: int| 0 <= k < v.len() ==> #[trigger] x@[k]@ == v[k],
                None => r is Err,
            },
    {
        proof { self.lemma_view(); }
        let pi = self.presentation_part_index()?;
        let part = self.package.part_at(pi);
        let ids = crate::slide::parse_slide_ids(part.blob.as_slice())?;
        proof { crate::id_list::lemma_parse_id_list_valid(crate::slide::blob_text(part@.blob).unwrap(), crate::slide::sld_list(), crate::slide::sld_elem()); }
        let base = part.partname.base_uri();
        let ghost l = crate::id_list::entries_view(ids@);
        let ghost rels = part@.rels.rels;
        assert(slides_of(self@) == resolved_refs(l, rels, base@));
        let mut out: Vec<SlideRef> = Vec::new();
        let mut i: usize = 0;
        while i < ids.len()
            invariant
                i <= ids.len(),
                slides_of(self@) == resolved_refs(l, rels, base@),
                l == crate::id_list::entries_view(ids@),
                crate::id_list::valid_entries(l),
                rels == part@.rels.rels,
                resolved_refs(l.take(i as int), rels, base@) matches Some(v) && out@.len() == v.len() && forall|k: int|
                    0 <= k < v.len() ==> #[trigger] out@[k]@ == v[k],
            decreases ids.len() - i,
        {
            assert(l.take(i as int + 1).drop_last() =~= l.take(i as int));
            assert(l.take(i as int + 1).last() == l[i as int]);
            let rid = crate::text::chars_to_string(&ids[i].0);
            let ghost prev = resolved_refs(l.take(i as int), rels, base@).unwrap();
            match part.rels.get(rid.as_str()) {
                Some(rel) => {
                    let partname = match rel.target_partname(base.as_str()) {
                        Ok(p) => p,
                        Err(e) => {
                            assert(resolved_refs(l.take(i as int + 1), rels, base@) is None);
                            assert(resolved_refs(l, rels, base@) is None) by { lemma_resolved_prefix(l, rels, base@, i as int + 1); }
                            return Err(e);
                        },
                    };
                    assert(crate::id_list::valid_entry(l[i as int]));
                    let r_id = match RelationshipId::try_from(rid.as_str()) {
                        Ok(x) => x,
                        Err(_) => return Err(PptxError::InvalidXml(rid)),
                    };
                    out.push(SlideRef { r_id, partname });
                },
                None => {
                    assert(resolved_refs(l.take(i as int + 1), rels, base@) is None);
                    assert(resolved_refs(l, rels, base@) is None) by { lemma_resolved_prefix(l, rels, base@, i as int + 1); }
                    return Err(PptxError::RelationshipNotFound(rid));
                },
            }
            i = i + 1;
        }
        assert(l.take(i as int) =~= l);
        Ok(out)
    }
}

/// When a prefix cannot be resolved, neither can the whole.
pub proof fn lemma_resolved_prefix(l: Seq<Entry>, rels: Seq<RelView>, base: Seq<char>, n: int)
    requires
        0 <= n <= l.len(),
        resolved_refs(l.take(n), rels, base) is None,
    ensures
        resolved_refs(l, rels, base) is None,
    decreases l.len() - n,
{
    if n < l.len() {
        assert(l.take(n + 1).drop_last() =~= l.take(n));
        lemma_resolved_prefix(l, rels, base, n + 1);
    } else {
        assert(l.take(n) =~= l);
    }
}

/// Where `add_slide` puts a new slide: `/ppt/slides/slideN.xml` with the first unused N.
pub open spec fn new_slide_name(pkg: PackageView) -> Seq<char> {
    next_partname_from(pkg.parts, "/ppt/slides/slide"@, ".xml"@, 1)
}

/// The new slide part: a blank slide related to the layout `layout`.
pub open spec fn new_slide_part(name: Seq<char>, layout: Seq<char>) -> PartView {
    PartView {
        partname: name,
        content_type: PML_SLIDE@,
        blob: encode_utf8(new_slide_text()),
        rels: RelsView {
            rels: seq![RelView {
                r_id: next_rid(Seq::empty()),
                rel_type: SLIDE_LAYOUT@,
                target_ref: relative_ref_spec(layout, base_uri_spec(name)),
                is_external: false,
            }],
            base: base_uri_spec(name),
        },
    }
}

/// What `add_slide` gives: the new slide's relationship id and part name, and the new
/// package; `None` (an error, nothing changed) without a presentation part, with an
/// unreadable slide list, or when no slide id is free.
pub open spec fn slide_added(pkg: PackageView, layout: Seq<char>) -> Option<(Seq<char>, Seq<char>, PackageView)> {
    match pres_index(pkg) {
        Some(pi) => {
            let pp = pkg.parts[pi];
            match slide_entries(pp.blob) {
                Some(l) => match new_slide_id(l) {
                    Some(id) => {
                        let rid = next_rid(pp.rels.rels);
                        match with_slide_entries(pp.blob, l.push((rid, id))) {
                            Some(nb) => {
                                let name = new_slide_name(pkg);
                                let rel = RelView {
                                    r_id: rid,
                                    rel_type: SLIDE@,
                                    target_ref: relative_ref_spec(name, part_dir(pp)),
                                    is_external: false,
                                };
                                let npp = PartView {
                                    blob: nb,
                                    rels: RelsView { rels: pp.rels.rels.push(rel), base: pp.rels.base },
                                    ..pp
                                };
                                Some(
                                    (
                                        rid,
                                        name,
                                        PackageView {
                                            parts: pkg.parts.push(new_slide_part(name, layout)).update(pi, npp),
                                            pkg_rels: pkg.pkg_rels,
                                        },
                                    ),
                                )
                            },
                            None => None,
                        }
                    },
                    None => None,
                },
                None => None,
            }
        },
        None => None,
    }
}

/// What `delete_slide` gives: the package without the slide's part, its relationship
/// from the presentation part and its slide entries; `None` (an error, nothing changed)
/// without a presentation part, when the slide names the presentation part itself, or
/// when the slide list cannot be read or written.
pub open spec fn slide_deleted(pkg: PackageView, slide: (Seq<char>, Seq<char>)) -> Option<PackageView> {
    match pres_index(pkg) {
        Some(pi) => {
            let pp = pkg.parts[pi];
            if pp.partname == slide.1 {
                None
            } else {
                match slide_entries(pp.blob) {
                    Some(l) => match with_slide_entries(pp.blob, without_rid(l, slide.0)) {
                        Some(nb) => {
                            let rels = match find_rid(pp.rels.rels, slide.0, 0) {
                                Some(j) => pp.rels.rels.remove(j),
                                None => pp.rels.rels,
                            };
                            let p1 = pkg.parts.update(
                                pi,
                                PartView { blob: nb, rels: RelsView { rels, base: pp.rels.base }, ..pp },
                            );
                            let p2 = match find_part(p1, slide.1, 0) {
                                Some(k) => p1.remove(k),
                                None => p1,
                            };
                            Some(PackageView { parts: p2, pkg_rels: pkg.pkg_rels })
                        },
                        None => None,
                    },
                    None => None,
                }
            }
        },
        None => None,
    }
}

/// What `move_slide` gives when `from != to`.
pub open spec fn slide_moved(pkg: PackageView, from: int, to: int) -> Option<PackageView> {
    match pres_index(pkg) {
        Some(pi) => match slide_entries(pkg.parts[pi].blob) {
            Some(l) => if 0 <= from < l.len() && 0 <= to < l.len() {
                match with_slide_entries(pkg.parts[pi].blob, moved(l, from, to)) {
                    Some(nb) => Some(with_blob(pkg, pi, nb)),
                    None => None,
                }
            } else {
                None
            },
            None => None,
        },
        None => None,
    }
}

/// The slide size of the presentation (see `slide_size_of`); `None` without a
/// presentation part.
pub open spec fn pres_slide_size(pkg: PackageView) -> Option<Option<(int, int)>> {
    match pres_index(pkg) {
        Some(pi) => slide_size_of(pkg.parts[pi].blob),
        None => None,
    }
}

/// The default slide size, 10 by 7.5 inches, used when presentation.xml has none.
pub open spec fn default_size() -> (int, int) {
    (9144000, 6858000)
}

/// What setting the width (`width` is `Some`) or height gives.
pub open spec fn size_set(pkg: PackageView, width: Option<int>, height: Option<int>) -> Option<PackageView> {
    match pres_index(pkg) {
        Some(pi) => match slide_size_of(pkg.parts[pi].blob) {
            Some(cur) => {
                let c = match cur { Some(x) => x, None => default_size() };
                let w = match width { Some(w) => w, None => c.0 };
                let h = match height { Some(h) => h, None => c.1 };
                match resized(pkg.parts[pi].blob, w, h) {
                    Some(nb) => Some(with_blob(pkg, pi, nb)),
                    None => None,
                }
            },
            None => None,
        },
        None => None,
    }
}

/// No relationship collection is full.
pub open spec fn rels_have_room(pkg: PackageView) -> bool {
    forall|k: int| 0 <= k < pkg.parts.len() ==> #[trigger] pkg.parts[k].rels.rels.len() + 1 < usize::MAX
}

/// A new relationship id is never empty.
pub proof fn lemma_next_rid_nonempty(rels: Seq<RelView>, n: nat)
    ensures
        crate::opc::package::next_rid_from(rels, n).len() > 0,
    decreases rels.len() + 2 - n,
{
    if n == 0 {
        lemma_next_rid_nonempty(rels, 1);
    } else if n <= rels.len() + 1 && crate::opc::package::rid_used(rels, crate::opc::package::rid_text(n)) {
        lemma_next_rid_nonempty(rels, n + 1);
    }
}

/// More slide methods.
impl Presentation {
    /// The number of slides.
    pub fn slide_count(&self) -> (r: Result<usize, PptxError>)
        ensures
            match slide_list(self@) {
                Some(l) => r matches Ok(n) && n == l.len(),
                None => r is Err,
            },
    {
        proof { self.lemma_view(); }
        let pi = self.presentation_part_index()?;
        let part = self.package.part_at(pi);
        let ids = crate::slide::parse_slide_ids(part.blob.as_slice())?;
        Ok(ids.len())
    }

    /// The slide at 0-based position `index`; an error when out of range.
    pub fn slides_get(&self, index: usize) -> (r: Result<SlideRef, PptxError>)
        ensures
            match slides_of(self@) {
                Some(v) => if index < v.len() { r matches Ok(x) && x@ == v[index as int] } else { r is Err },
                None => r is Err,
            },
    {
        let slides = self.slides()?;
        if index < slides.len() {
            Ok(slides[index].copied())
        } else {
            Err(PptxError::InvalidXml("slide index out of range".to_owned()))
        }
    }

    /// The 0-based position of the first slide with the part name of `slide_ref`; an
    /// error when no slide has it.
    pub fn slide_index(&self, slide_ref: &SlideRef) -> (r: Result<usize, PptxError>)
        ensures
            match slides_of(self@) {
                Some(v) => match index_of_part(v, slide_ref@.1, 0) {
                    Some(k) => r matches Ok(x) && x as int == k,
                    None => r is Err,
                },
                None => r is Err,
            },
    {
        let slides = self.slides()?;
        let ghost v = slides_of(self@).unwrap();
        let mut i: usize = 0;
        while i < slides.len()
            invariant
                i <= slides.len(),
                slides@.len() == v.len(),
                slides_of(self@) == Some(v),
                forall|k: int| 0 <= k < v.len() ==> #[trigger] slides@[k]@ == v[k],
                index_of_part(v, slide_ref@.1, 0) == index_of_part(v, slide_ref@.1, i as int),
            decreases slides.len() - i,
        {
            assert(slides@[i as int]@ == v[i as int]);
            if slides[i].partname.same_as(&slide_ref.partname) {
                assert(v[i as int].1 == slide_ref@.1);
                return Ok(i);
            }
            i = i + 1;
        }
        Err(PptxError::PartNotFound(slide_ref.partname.to_string()))
    }

    /// Moves the slide at `from_index` to `to_index` (both 0-based); nothing to do when they
    /// are equal; an error when either is out of range.
    pub fn move_slide(&mut self, from_index: usize, to_index: usize) -> (r: Result<(), PptxError>)
        ensures
            from_index == to_index ==> final(self)@ == old(self)@ && (r is Ok <==> (slide_list(old(self)@) matches Some(l)
                && from_index < l.len())),
            from_index != to_index ==> match slide_moved(old(self)@, from_index as int, to_index as int) {
                Some(p) => r is Ok && final(self)@ == p,
                None => r is Err && final(self)@ == old(self)@,
            },
    {
        proof { self.lemma_view(); }
        if from_index == to_index {
            let n = self.slide_count()?;
            if from_index >= n {
                return Err(PptxError::InvalidXml("slide index out of range".to_owned()));
            }
            return Ok(());
        }
        let pi = self.presentation_part_index()?;
        let nb = crate::slide::reorder_slide_in_presentation_xml(self.package.part_at(pi).blob.as_slice(), from_index, to_index)?;
        self.package.set_blob_at(pi, nb);
        proof { self.lemma_view(); }
        Ok(())
    }

    /// Adds a blank slide using `layout`, at the end; returns its reference.
    pub fn add_slide(&mut self, layout: &super::SlideLayoutRef) -> (r: Result<SlideRef, PptxError>)
        requires
            old(self)@.parts.len() + 1 < usize::MAX,
            rels_have_room(old(self)@),
        ensures
            match slide_added(old(self)@, layout.partname@) {
                Some((rid, name, p)) => r matches Ok(s) && s@ == (rid, name) && final(self)@ == p,
                None => r is Err && final(self)@ == old(self)@,
            },
    {
        proof { self.lemma_view(); lemma_pres_index(self@); }
        let pi = self.presentation_part_index()?;
        let ids = crate::slide::parse_slide_ids(self.package.part_at(pi).blob.as_slice())?;
        let id = match crate::slide::next_slide_id(&ids) {
            Some(x) => x,
            None => return Err(PptxError::InvalidXml("no free slide id".to_owned())),
        };
        let ghost l = crate::id_list::entries_view(ids@);
        let rid = self.package.part_at(pi).rels.next_r_id();
        let nb = crate::slide::add_slide_id_to_presentation_xml(self.package.part_at(pi).blob.as_slice(), rid.as_str(), id)?;
        let slide_partname = self.package.next_partname("/ppt/slides/slide", ".xml");
        let pres_base = self.package.part_at(pi).partname.base_uri();
        let layout_target = layout.partname.relative_ref(slide_partname.base_uri().as_str());
        let slide_target = slide_partname.relative_ref(pres_base.as_str());
        let mut slide_part = Part::new(slide_partname.copied(), PML_SLIDE, crate::slide::new_slide_xml());
        slide_part.rels.add_relationship(SLIDE_LAYOUT, layout_target.as_str(), false);
        let ghost old_pkg = self@;
        proof { crate::opc::package::lemma_find_part_found(self@.parts, slide_partname@, 0); }
        self.package.put_part(slide_part);
        proof { self.lemma_view(); }
        let mut rels = self.package.take_rels_at(pi);
        let rid2 = rels.add_relationship(SLIDE, slide_target.as_str(), false);
        self.package.set_rels_at(pi, rels);
        self.package.set_blob_at(pi, nb);
        proof {
            self.lemma_view();
            lemma_next_rid_nonempty(old_pkg.parts[pi as int].rels.rels, 1);
        }
        let r_id = match RelationshipId::try_from(rid.as_str()) {
            Ok(x) => x,
            Err(_) => return Err(PptxError::InvalidXml(rid)),
        };
        assert(self@.parts =~= old_pkg.parts.push(slide_part@).update(pi as int, PartView {
            blob: nb@,
            rels: RelsView { rels: old_pkg.parts[pi as int].rels.rels.push(RelView {
                r_id: rid@, rel_type: SLIDE@, target_ref: slide_target@, is_external: false }), base: old_pkg.parts[pi as int].rels.base },
            ..old_pkg.parts[pi as int]
        }));
        Ok(SlideRef { r_id, partname: slide_partname })
    }
}

/// Slide parts: bytes, size, names, deletion.
impl Presentation {
    /// The bytes of the slide's part; an error when there is no such part.
    pub fn slide_xml(&self, slide_ref: &SlideRef) -> (r: Result<&[u8], PptxError>)
        ensures
            match part_named(self@, slide_ref@.1) {
                Some(p) => r matches Ok(b) && b@ == p.blob,
                None => r is Err,
            },
    {
        proof { self.lemma_view(); }
        match self.package.part(&slide_ref.partname) {
            Some(p) => Ok(p.blob.as_slice()),
            None => Err(PptxError::PartNotFound(slide_ref.partname.to_string())),
        }
    }

    /// The slide size (width, height) in EMU; `Ok(None)` when presentation.xml has none.
    pub fn slide_size(&self) -> (r: Result<Option<(i64, i64)>, PptxError>)
        ensures
            match pres_slide_size(self@) {
                Some(Some((w, h))) => r matches Ok(Some((x, y))) && x as int == w && y as int == h,
                Some(None) => r matches Ok(None),
                None => r is Err,
            },
    {
        proof { self.lemma_view(); }
        let pi = self.presentation_part_index()?;
        crate::slide::parse_slide_size(self.package.part_at(pi).blob.as_slice())
    }

    fn set_size(&mut self, width: Option<i64>, height: Option<i64>) -> (r: Result<(), PptxError>)
        ensures
            match size_set(
                old(self)@,
                match width { Some(w) => Some(w as int), None => None },
                match height { Some(h) => Some(h as int), None => None },
            ) {
                Some(p) => r is Ok && final(self)@ == p,
                None => r is Err && final(self)@ == old(self)@,
            },
    {
        proof { self.lemma_view(); }
        let pi = self.presentation_part_index()?;
        let cur = crate::slide::parse_slide_size(self.package.part_at(pi).blob.as_slice())?;
        let (cw, ch) = match cur {
            Some(x) => x,
            None => (9144000i64, 6858000i64),
        };
        let w = match width { Some(w) => w, None => cw };
        let h = match height { Some(h) => h, None => ch };
        let nb = crate::slide::set_slide_size_in_xml(self.package.part_at(pi).blob.as_slice(), w, h)?;
        self.package.set_blob_at(pi, nb);
        proof { self.lemma_view(); }
        Ok(())
    }

    /// Sets the slide width in EMU, keeping the height (10 by 7.5 inches is assumed when
    /// presentation.xml gives no size).
    pub fn set_slide_width(&mut self, width: i64) -> (r: Result<(), PptxError>)
        ensures
            match size_set(old(self)@, Some(width as int), None) {
                Some(p) => r is Ok && final(self)@ == p,
                None => r is Err && final(self)@ == old(self)@,
            },
    {
        self.set_size(Some(width), None)
    }

    /// Sets the slide height in EMU, keeping the width.
    pub fn set_slide_height(&mut self, height: i64) -> (r: Result<(), PptxError>)
        ensures
            match size_set(old(self)@, None, Some(height as int)) {
                Some(p) => r is Ok && final(self)@ == p,
                None => r is Err && final(self)@ == old(self)@,
            },
    {
        self.set_size(None, Some(height))
    }

    /// Deletes a slide: its part, its relationship from the presentation part and its
    /// entry in the slide list.
    pub fn delete_slide(&mut self, slide_ref: &SlideRef) -> (r: Result<(), PptxError>)
        ensures
            match slide_deleted(old(self)@, slide_ref@) {
                Some(p) => r is Ok && final(self)@ == p,
                None => r is Err && final(self)@ == old(self)@,
            },
    {
        proof { self.lemma_view(); }
        let pi = self.presentation_part_index()?;
        if self.package.part_at(pi).partname.same_as(&slide_ref.partname) {
            return Err(PptxError::InvalidXml("a slide cannot be the presentation part".to_owned()));
        }
        let nb = crate::slide::remove_slide_id_from_presentation_xml(
            self.package.part_at(pi).blob.as_slice(),
            slide_ref.r_id.as_str(),
        )?;
        let ghost pkg0 = self@;
        let ghost pp = pkg0.parts[pi as int];
        let mut rels = self.package.take_rels_at(pi);
        let _ = rels.remove(slide_ref.r_id.as_str());
        let ghost nrels = rels@.rels;
        assert(nrels == match find_rid(pp.rels.rels, slide_ref@.0, 0) {
            Some(j) => pp.rels.rels.remove(j),
            None => pp.rels.rels,
        });
        self.package.set_rels_at(pi, rels);
        self.package.set_blob_at(pi, nb);
        proof { self.lemma_view(); }
        assert(self@.parts =~= pkg0.parts.update(
            pi as int,
            PartView { blob: nb@, rels: RelsView { rels: nrels, base: pp.rels.base }, ..pp },
        ));
        let _ = self.package.remove_part(&slide_ref.partname);
        proof { self.lemma_view(); }
        Ok(())
    }

    /// The name of a slide (the `name` of its `<p:cSld>`); `Ok(None)` without one.
    pub fn slide_name(&self, slide_ref: &SlideRef) -> (r: Result<Option<String>, PptxError>)
        ensures
            match part_named(self@, slide_ref@.1) {
                Some(p) => match part_name_attr(p.blob) {
                    Some(Some(n)) => r matches Ok(Some(x)) && x@ == n,
                    Some(None) => r matches Ok(None),
                    None => r is Err,
                },
                None => r is Err,
            },
    {
        proof { self.lemma_view(); }
        match self.package.part(&slide_ref.partname) {
            Some(p) => crate::slide::parse_slide_name(p.blob.as_slice()),
            None => Err(PptxError::PartNotFound(slide_ref.partname.to_string())),
        }
    }
}

} // verus!
