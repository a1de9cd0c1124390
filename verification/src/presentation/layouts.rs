//! Slide masters and slide layouts.
use vstd::prelude::*;
use crate::error::PptxError;
use crate::id_list::{entries_view, valid_entries};
use crate::opc::package::{PackageView, Part, PartView, RelView, find_rid, find_type, of_type, find_part};
use crate::opc::relationship_type::{SLIDE_LAYOUT, SLIDE_MASTER, THEME};
use crate::opc::uri::{PackURI, resolve};
use crate::slide::{master_entries, part_name_attr};
use crate::units::RelationshipId;
use crate::theme::{ThemeColorScheme, parse_theme_color_scheme, theme_scheme_of};
use super::fonts::font_fail_is;
use crate::smartart::{SmartArt, SmartArtView, opt_bytes, DIAGRAM_COLORS, DIAGRAM_STYLE, DIAGRAM_LAYOUT, DIAGRAM_DRAWING};
use super::{Presentation, pres_index, part_dir, part_named};
use super::slides::{resolved_refs, lemma_resolved_prefix, SlideRef};

verus! {

/// A slide master: its relationship id from the presentation part and its part name.
#[derive(Debug, Clone)]
pub struct SlideMasterRef {
    pub r_id: RelationshipId,
    pub partname: PackURI,
}

impl View for SlideMasterRef {
    type V = (Seq<char>, Seq<char>);

    open spec fn view(&self) -> (Seq<char>, Seq<char>) {
        (self.r_id@, self.partname@)
    }
}

/// A slide layout: its relationship id from its master, part name, name, and the part
/// name of its slide master.
#[derive(Debug, Clone)]
pub struct SlideLayoutRef {
    pub r_id: RelationshipId,
    pub partname: PackURI,
    pub name: String,
    pub slide_master_part_name: Option<String>,
}

/// What a layout reference holds.
pub struct LayoutView {
    pub r_id: Seq<char>,
    pub partname: Seq<char>,
    pub name: Seq<char>,
    pub master: Option<Seq<char>>,
}

impl View for SlideLayoutRef {
    type V = LayoutView;

    open spec fn view(&self) -> LayoutView {
        LayoutView {
            r_id: self.r_id@,
            partname: self.partname@,
            name: self.name@,
            master: match &self.slide_master_part_name { Some(s) => Some(s@), None => None },
        }
    }
}

/// The slide masters of the presentation, in order: (relationship id, part name).
pub open spec fn masters_of(pkg: PackageView) -> Option<Seq<(Seq<char>, Seq<char>)>> {
    match pres_index(pkg) {
        Some(i) => match master_entries(pkg.parts[i].blob) {
            Some(l) => resolved_refs(l, pkg.parts[i].rels.rels, part_dir(pkg.parts[i])),
            None => None,
        },
        None => None,
    }
}

/// The name of a layout part: its `<p:cSld name>`, empty without one; `None` when it cannot
/// be read.
pub open spec fn layout_name_of(p: PartView) -> Option<Seq<char>> {
    match part_name_attr(p.blob) {
        Some(Some(n)) => Some(n),
        Some(None) => Some(Seq::empty()),
        None => None,
    }
}

/// The slide master a layout part's first slideMaster relationship points to, when it is
/// not external.
pub open spec fn layout_master_of(p: PartView) -> Option<Seq<char>> {
    match find_type(p.rels.rels, SLIDE_MASTER@, 0) {
        Some(j) => if p.rels.rels[j].is_external { None } else { Some(resolve(part_dir(p), p.rels.rels[j].target_ref)) },
        None => None,
    }
}

/// The layout that relationship `rel` of master `mname` (directory `dir`) gives;
/// `None` when the relationship is external, its id empty, or the layout's name unreadable.
pub open spec fn layout_from_rel(pkg: PackageView, mname: Seq<char>, dir: Seq<char>, rel: RelView) -> Option<LayoutView> {
    if rel.is_external || rel.r_id.len() == 0 {
        None
    } else {
        let partname = resolve(dir, rel.target_ref);
        match part_named(pkg, partname) {
            None => Some(LayoutView { r_id: rel.r_id, partname, name: Seq::empty(), master: Some(mname) }),
            Some(lp) => match layout_name_of(lp) {
                Some(name) => Some(LayoutView {
                    r_id: rel.r_id,
                    partname,
                    name,
                    master: match layout_master_of(lp) { Some(m) => Some(m), None => Some(mname) },
                }),
                None => None,
            },
        }
    }
}

/// The layouts of one master from its layout relationships `rels`, in order.
pub open spec fn layouts_from_rels(pkg: PackageView, mname: Seq<char>, dir: Seq<char>, rels: Seq<RelView>) -> Option<Seq<LayoutView>>
    decreases rels.len(),
{
    if rels.len() == 0 {
        Some(Seq::empty())
    } else {
        match layouts_from_rels(pkg, mname, dir, rels.drop_last()) {
            Some(prev) => match layout_from_rel(pkg, mname, dir, rels.last()) {
                Some(x) => Some(prev.push(x)),
                None => None,
            },
            None => None,
        }
    }
}

/// The layouts of master `m`; `None` when its part is missing.
pub open spec fn master_layouts(pkg: PackageView, mname: Seq<char>) -> Option<Seq<LayoutView>> {
    match part_named(pkg, mname) {
        Some(mp) => layouts_from_rels(pkg, mname, part_dir(mp), of_type(mp.rels.rels, SLIDE_LAYOUT@)),
        None => None,
    }
}

/// The layouts of the masters `ms`, master by master.
pub open spec fn layouts_of_masters(pkg: PackageView, ms: Seq<(Seq<char>, Seq<char>)>) -> Option<Seq<LayoutView>>
    decreases ms.len(),
{
    if ms.len() == 0 {
        Some(Seq::empty())
    } else {
        match layouts_of_masters(pkg, ms.drop_last()) {
            Some(prev) => match master_layouts(pkg, ms.last().1) {
                Some(x) => Some(prev + x),
                None => None,
            },
            None => None,
        }
    }
}

/// All layouts of the presentation, the first master's first.
pub open spec fn layouts_of(pkg: PackageView) -> Option<Seq<LayoutView>> {
    match masters_of(pkg) {
        Some(ms) => layouts_of_masters(pkg, ms),
        None => None,
    }
}

proof fn lemma_layouts_prefix(pkg: PackageView, mname: Seq<char>, dir: Seq<char>, rels: Seq<RelView>, n: int)
    requires
        0 <= n <= rels.len(),
        layouts_from_rels(pkg, mname, dir, rels.take(n)) is None,
    ensures
        layouts_from_rels(pkg, mname, dir, rels) is None,
    decreases rels.len() - n,
{
    if n < rels.len() {
        assert(rels.take(n + 1).drop_last() =~= rels.take(n));
        lemma_layouts_prefix(pkg, mname, dir, rels, n + 1);
    } else {
        assert(rels.take(n) =~= rels);
    }
}

proof fn lemma_masters_prefix(pkg: PackageView, ms: Seq<(Seq<char>, Seq<char>)>, n: int)
    requires
        0 <= n <= ms.len(),
        layouts_of_masters(pkg, ms.take(n)) is None,
    ensures
        layouts_of_masters(pkg, ms) is None,
    decreases ms.len() - n,
{
    if n < ms.len() {
        assert(ms.take(n + 1).drop_last() =~= ms.take(n));
        lemma_masters_prefix(pkg, ms, n + 1);
    } else {
        assert(ms.take(n) =~= ms);
    }
}

/// Layout and master methods.
impl Presentation {
    /// The slide masters, in order.
    pub fn slide_masters(&self) -> (r: Result<Vec<SlideMasterRef>, PptxError>)
        ensures
            match masters_of(self@) {
                Some(v) => r matches Ok(x) && x@.len() == v.len() && forall|k: int| 0 <= k < v.len() ==> #[trigger] x@[k]@ == v[k],
                None => r is Err,
            },
    {
        proof { self.lemma_view(); }
        let pi = self.presentation_part_index()?;
        let part = self.package.part_at(pi);
        let ids = crate::slide::parse_slide_master_ids(part.blob.as_slice())?;
        proof {
            reveal_strlit("p:sldMasterIdLst");
            reveal_strlit("p:sldMasterId");
            crate::id_list::lemma_parse_id_list_valid(crate::slide::blob_text(part@.blob).unwrap(), crate::slide::master_list(), crate::slide::master_elem());
        }
        let base = part.partname.base_uri();
        let ghost l = entries_view(ids@);
        let ghost rels = part@.rels.rels;
        assert(masters_of(self@) == resolved_refs(l, rels, base@));
        let mut out: Vec<SlideMasterRef> = Vec::new();
        let mut i: usize = 0;
        while i < ids.len()
            invariant
                i <= ids.len(),
                masters_of(self@) == resolved_refs(l, rels, base@),
                l == entries_view(ids@),
                valid_entries(l),
                rels == part@.rels.rels,
                resolved_refs(l.take(i as int), rels, base@) matches Some(v) && out@.len() == v.len() && forall|k: int|
                    0 <= k < v.len() ==> #[trigger] out@[k]@ == v[k],
            decreases ids.len() - i,
        {
            assert(l.take(i as int + 1).drop_last() =~= l.take(i as int));
            assert(l.take(i as int + 1).last() == l[i as int]);
            let rid = crate::text::chars_to_string(&ids[i].0);
            match part.rels.get(rid.as_str()) {
                Some(rel) => {
                    let partname = match rel.target_partname(base.as_str()) {
                        Ok(p) => p,
                        Err(e) => {
                            assert(resolved_refs(l, rels, base@) is None) by { lemma_resolved_prefix(l, rels, base@, i as int + 1); }
                            return Err(e);
                        },
                    };
                    assert(crate::id_list::valid_entry(l[i as int]));
                    let r_id = match RelationshipId::try_from(rid.as_str()) {
                        Ok(x) => x,
                        Err(_) => return Err(PptxError::InvalidXml(rid)),
                    };
                    out.push(SlideMasterRef { r_id, partname });
                },
                None => {
                    assert(resolved_refs(l, rels, base@) is None) by { lemma_resolved_prefix(l, rels, base@, i as int + 1); }
                    return Err(PptxError::RelationshipNotFound(rid));
                },
            }
            i = i + 1;
        }
        assert(l.take(i as int) =~= l);
        Ok(out)
    }

    fn layout_from(&self, master_name: &PackURI, dir: &str, rel: &crate::opc::package::Relationship) -> (r: Result<SlideLayoutRef, PptxError>)
        ensures
            match layout_from_rel(self@, master_name@, dir@, rel@) {
                Some(x) => r matches Ok(y) && y@ == x,
                None => r is Err,
            },
    {
        proof { self.lemma_view(); }
        let partname = rel.target_partname(dir)?;
        let r_id = match RelationshipId::try_from(rel.r_id.as_str()) {
            Ok(x) => x,
            Err(_) => return Err(PptxError::InvalidXml(rel.r_id.clone())),
        };
        match self.package.part(&partname) {
            None => Ok(SlideLayoutRef { r_id, partname, name: String::new(), slide_master_part_name: Some(master_name.to_string()) }),
            Some(lp) => {
                let name = crate::slide::parse_layout_name(lp.blob.as_slice())?;
                assert(layout_name_of(lp@) == Some(name@)) by {
                    if let Some(None) = part_name_attr(lp@.blob) {
                        assert(name@ =~= Seq::<char>::empty());
                    }
                }
                let lbase = lp.partname.base_uri();
                let master = match lp.rels.by_reltype(SLIDE_MASTER) {
                    Ok(mrel) => match mrel.target_partname(lbase.as_str()) {
                        Ok(m) => m.to_string(),
                        Err(_) => master_name.to_string(),
                    },
                    Err(_) => master_name.to_string(),
                };
                Ok(SlideLayoutRef { r_id, partname, name, slide_master_part_name: Some(master) })
            },
        }
    }

    /// The layouts of all slide masters, the first master's first.
    pub fn slide_layouts(&self) -> (r: Result<Vec<SlideLayoutRef>, PptxError>)
        ensures
            match layouts_of(self@) {
                Some(v) => r matches Ok(x) && x@.len() == v.len() && forall|k: int| 0 <= k < v.len() ==> #[trigger] x@[k]@ == v[k],
                None => r is Err,
            },
    {
        proof { self.lemma_view(); }
        let masters = self.slide_masters()?;
        let ghost ms = masters_of(self@).unwrap();
        let mut out: Vec<SlideLayoutRef> = Vec::new();
        let mut mi: usize = 0;
        while mi < masters.len()
            invariant
                mi <= masters.len(),
                masters@.len() == ms.len(),
                layouts_of(self@) == layouts_of_masters(self@, ms),
                forall|k: int| 0 <= k < ms.len() ==> #[trigger] masters@[k]@ == ms[k],
                layouts_of_masters(self@, ms.take(mi as int)) matches Some(v) && out@.len() == v.len() && forall|k: int|
                    0 <= k < v.len() ==> #[trigger] out@[k]@ == v[k],
            decreases masters.len() - mi,
        {
            assert(ms.take(mi as int + 1).drop_last() =~= ms.take(mi as int));
            assert(ms.take(mi as int + 1).last() == ms[mi as int]);
            assert(masters@[mi as int]@ == ms[mi as int]);
            let mref = &masters[mi];
            let mp = match self.package.part(&mref.partname) {
                Some(p) => p,
                None => {
                    assert(layouts_of_masters(self@, ms) is None) by { lemma_masters_prefix(self@, ms, mi as int + 1); }
                    return Err(PptxError::PartNotFound(mref.partname.to_string()));
                },
            };
            let mdir = mp.partname.base_uri();
            let lrels = mp.rels.all_by_reltype(SLIDE_LAYOUT);
            let ghost lr = of_type(mp@.rels.rels, SLIDE_LAYOUT@);
            let ghost prev = layouts_of_masters(self@, ms.take(mi as int)).unwrap();
            let ghost base_len = out@.len();
            let mut j: usize = 0;
            while j < lrels.len()
                invariant
                    j <= lrels.len(),
                    lrels@.len() == lr.len(),
                    mi < ms.len(),
                    masters@.len() == ms.len(),
                    layouts_of(self@) == layouts_of_masters(self@, ms),
                    layouts_of_masters(self@, ms.take(mi as int)) == Some(prev),
                    ms.take(mi as int + 1).drop_last() == ms.take(mi as int),
                    ms.take(mi as int + 1).last() == ms[mi as int],
                    ms[mi as int] == mref@,
                    part_named(self@, mref.partname@) == Some(mp@),
                    mdir@ == part_dir(mp@),
                    lr == of_type(mp@.rels.rels, SLIDE_LAYOUT@),
                    forall|k: int| 0 <= k < lr.len() ==> #[trigger] lrels@[k]@ == lr[k],
                    base_len == prev.len(),
                    layouts_from_rels(self@, mref.partname@, mdir@, lr.take(j as int)) matches Some(w) && out@.len() == prev.len() + w.len()
                        && (forall|k: int| 0 <= k < prev.len() ==> #[trigger] out@[k]@ == prev[k])
                        && (forall|k: int| 0 <= k < w.len() ==> #[trigger] out@[prev.len() + k]@ == w[k]),
                decreases lrels.len() - j,
            {
                assert(lr.take(j as int + 1).drop_last() =~= lr.take(j as int));
                assert(lr.take(j as int + 1).last() == lr[j as int]);
                assert(lrels@[j as int]@ == lr[j as int]);
                let lay = match self.layout_from(&mref.partname, mdir.as_str(), lrels[j]) {
                    Ok(x) => x,
                    Err(e) => {
                        proof {
                            lemma_layouts_prefix(self@, mref.partname@, mdir@, lr, j as int + 1);
                            lemma_masters_prefix(self@, ms, mi as int + 1);
                        }
                        return Err(e);
                    },
                };
                out.push(lay);
                j = j + 1;
            }
            assert(lr.take(j as int) =~= lr);
            proof {
                let w = layouts_from_rels(self@, mref.partname@, mdir@, lr).unwrap();
                assert(master_layouts(self@, ms[mi as int].1) == Some(w));
                assert forall|k: int| 0 <= k < (prev + w).len() implies #[trigger] out@[k]@ == (prev + w)[k] by {
                    if k >= prev.len() {
                        assert(out@[prev.len() + (k - prev.len())]@ == w[k - prev.len()]);
                    }
                }
            }
            mi = mi + 1;
        }
        assert(ms.take(mi as int) =~= ms);
        Ok(out)
    }
}

/// The layout a slide part uses: where its first slideLayout relationship points, when
/// not external.
pub open spec fn slide_layout_name(sp: PartView) -> Option<Seq<char>> {
    match find_type(sp.rels.rels, SLIDE_LAYOUT@, 0) {
        Some(j) => if sp.rels.rels[j].is_external { None } else { Some(resolve(part_dir(sp), sp.rels.rels[j].target_ref)) },
        None => None,
    }
}

/// The layout of a slide part: `Some(None)` without a slideLayout relationship, `None`
/// when it cannot be read (external, empty id, unreadable layout name).
pub open spec fn layout_for_part(pkg: PackageView, sp: PartView) -> Option<Option<LayoutView>> {
    match find_type(sp.rels.rels, SLIDE_LAYOUT@, 0) {
        None => Some(None),
        Some(j) => {
            let rel = sp.rels.rels[j];
            if rel.is_external || rel.r_id.len() == 0 {
                None
            } else {
                let partname = resolve(part_dir(sp), rel.target_ref);
                match part_named(pkg, partname) {
                    None => Some(Some(LayoutView { r_id: rel.r_id, partname, name: Seq::empty(), master: None })),
                    Some(lp) => match layout_name_of(lp) {
                        Some(name) => Some(Some(LayoutView { r_id: rel.r_id, partname, name, master: layout_master_of(lp) })),
                        None => None,
                    },
                }
            }
        },
    }
}

/// The first master in `ms` from position `i` named `name`.
pub open spec fn master_named(ms: Seq<(Seq<char>, Seq<char>)>, name: Seq<char>, i: int) -> Option<int>
    decreases ms.len() - i,
{
    if i < 0 || i >= ms.len() {
        None
    } else if ms[i].1 == name {
        Some(i)
    } else {
        master_named(ms, name, i + 1)
    }
}

/// Whether a slide of `v` uses layout `lp`.
pub open spec fn layout_in_use(pkg: PackageView, v: Seq<(Seq<char>, Seq<char>)>, lp: Seq<char>) -> bool {
    exists|k: int| 0 <= k < v.len() && (#[trigger] part_named(pkg, v[k].1) matches Some(sp) && slide_layout_name(sp) == Some(lp))
}

/// The id of the first of the layout relationships `rels` from position `i` that points
/// to `lp` (resolved against `dir`, not external).
pub open spec fn first_rel_to(rels: Seq<RelView>, dir: Seq<char>, lp: Seq<char>, i: int) -> Option<Seq<char>>
    decreases rels.len() - i,
{
    if i < 0 || i >= rels.len() {
        None
    } else if !rels[i].is_external && resolve(dir, rels[i].target_ref) == lp {
        Some(rels[i].r_id)
    } else {
        first_rel_to(rels, dir, lp, i + 1)
    }
}

/// The master from position `i` on that has layout `lp`, with the relationship id: `None`
/// when a master's part is missing, `Some(None)` when no master has it.
pub open spec fn layout_owner(pkg: PackageView, ms: Seq<(Seq<char>, Seq<char>)>, lp: Seq<char>, i: int) -> Option<Option<(Seq<char>, Seq<char>)>>
    decreases ms.len() - i,
{
    if i < 0 || i >= ms.len() {
        Some(None)
    } else {
        match part_named(pkg, ms[i].1) {
            None => None,
            Some(mp) => match first_rel_to(of_type(mp.rels.rels, SLIDE_LAYOUT@), part_dir(mp), lp, 0) {
                Some(rid) => Some(Some((ms[i].1, rid))),
                None => layout_owner(pkg, ms, lp, i + 1),
            },
        }
    }
}

/// What `remove_slide_layout` gives: the package without the layout part, its
/// relationship from its master and its entry in the master's layout list; `None` (an
/// error, nothing changed) when a slide uses it, no master has it, or a list cannot be
/// read or written.
pub open spec fn layout_removed(pkg: PackageView, lp: Seq<char>) -> Option<PackageView> {
    match (crate::presentation::slides_of(pkg), masters_of(pkg)) {
        (Some(v), Some(ms)) => if layout_in_use(pkg, v, lp) {
            None
        } else {
            match layout_owner(pkg, ms, lp, 0) {
                Some(Some((mname, rid))) => match find_part(pkg.parts, mname, 0) {
                    Some(mi) => {
                        let mp = pkg.parts[mi];
                        match crate::slide::without_layout(mp.blob, rid) {
                            Some(nb) => {
                                let rels = match find_rid(mp.rels.rels, rid, 0) {
                                    Some(j) => mp.rels.rels.remove(j),
                                    None => mp.rels.rels,
                                };
                                let p1 = pkg.parts.update(
                                    mi,
                                    PartView { blob: nb, rels: crate::opc::package::RelsView { rels, base: mp.rels.base }, ..mp },
                                );
                                let p2 = match find_part(p1, lp, 0) {
                                    Some(k) => p1.remove(k),
                                    None => p1,
                                };
                                Some(PackageView { parts: p2, pkg_rels: pkg.pkg_rels })
                            },
                            None => None,
                        }
                    },
                    None => None,
                },
                _ => None,
            }
        },
        _ => None,
    }
}

/// More layout methods.
impl Presentation {
    /// The layout that a slide uses; `Ok(None)` when it has no layout relationship.
    pub fn slide_layout_for(&self, slide_ref: &SlideRef) -> (r: Result<Option<SlideLayoutRef>, PptxError>)
        ensures
            match part_named(self@, slide_ref@.1) {
                Some(sp) => match layout_for_part(self@, sp) {
                    Some(Some(x)) => r matches Ok(Some(y)) && y@ == x,
                    Some(None) => r matches Ok(None),
                    None => r is Err,
                },
                None => r is Err,
            },
    {
        proof { self.lemma_view(); }
        let sp = match self.package.part(&slide_ref.partname) {
            Some(p) => p,
            None => return Err(PptxError::PartNotFound(slide_ref.partname.to_string())),
        };
        let rel = match sp.rels.by_reltype(SLIDE_LAYOUT) {
            Ok(x) => x,
            Err(_) => return Ok(None),
        };
        let partname = rel.target_partname(sp.partname.base_uri().as_str())?;
        let r_id = match RelationshipId::try_from(rel.r_id.as_str()) {
            Ok(x) => x,
            Err(_) => return Err(PptxError::InvalidXml(rel.r_id.clone())),
        };
        match self.package.part(&partname) {
            None => Ok(Some(SlideLayoutRef { r_id, partname, name: String::new(), slide_master_part_name: None })),
            Some(lp) => {
                let name = crate::slide::parse_layout_name(lp.blob.as_slice())?;
                assert(layout_name_of(lp@) == Some(name@)) by {
                    if let Some(None) = part_name_attr(lp@.blob) {
                        assert(name@ =~= Seq::<char>::empty());
                    }
                }
                let master = match lp.rels.by_reltype(SLIDE_MASTER) {
                    Ok(mrel) => match mrel.target_partname(lp.partname.base_uri().as_str()) {
                        Ok(m) => Some(m.to_string()),
                        Err(_) => None,
                    },
                    Err(_) => None,
                };
                Ok(Some(SlideLayoutRef { r_id, partname, name, slide_master_part_name: master }))
            },
        }
    }

    /// The slide master of a layout, found by the master part name the layout holds;
    /// `Ok(None)` when it holds none or no master has that name.
    pub fn slide_master_for_layout(&self, layout: &SlideLayoutRef) -> (r: Result<Option<SlideMasterRef>, PptxError>)
        ensures
            match layout@.master {
                None => r matches Ok(None),
                Some(n) => match masters_of(self@) {
                    Some(ms) => match master_named(ms, n, 0) {
                        Some(k) => r matches Ok(Some(m)) && m@ == ms[k],
                        None => r matches Ok(None),
                    },
                    None => r is Err,
                },
            },
    {
        let n = match &layout.slide_master_part_name {
            Some(n) => n,
            None => return Ok(None),
        };
        let masters = self.slide_masters()?;
        let ghost ms = masters_of(self@).unwrap();
        let mut i: usize = 0;
        while i < masters.len()
            invariant
                i <= masters.len(),
                masters@.len() == ms.len(),
                masters_of(self@) == Some(ms),
                forall|k: int| 0 <= k < ms.len() ==> #[trigger] masters@[k]@ == ms[k],
                master_named(ms, n@, 0) == master_named(ms, n@, i as int),
                layout@.master == Some(n@),
            decreases masters.len() - i,
        {
            assert(masters@[i as int]@ == ms[i as int]);
            if crate::enums::str_eq(masters[i].partname.as_str(), n.as_str()) {
                assert(ms[i as int].1 == n@);
                assert(master_named(ms, n@, i as int) == Some(i as int));
                let m = SlideMasterRef { r_id: masters[i].r_id.copied(), partname: masters[i].partname.copied() };
                return Ok(Some(m));
            }
            i = i + 1;
        }
        Ok(None)
    }

    fn layout_in_use_exec(&self, slides: &Vec<SlideRef>, lp: &PackURI) -> (r: bool)
        ensures
            r == layout_in_use(self@, slides@.map_values(|s: SlideRef| s@), lp@),
    {
        proof { self.lemma_view(); }
        let ghost v = slides@.map_values(|s: SlideRef| s@);
        let mut k: usize = 0;
        while k < slides.len()
            invariant
                k <= slides.len(),
                v == slides@.map_values(|s: SlideRef| s@),
                self@ == self.package@,
                forall|m: int| 0 <= m < k ==> !(#[trigger] part_named(self@, v[m].1) matches Some(sp) && slide_layout_name(sp) == Some(lp@)),
            decreases slides.len() - k,
        {
            assert(v[k as int] == slides@[k as int]@);
            match self.package.part(&slides[k].partname) {
                Some(sp) => {
                    match sp.rels.by_reltype(SLIDE_LAYOUT) {
                        Ok(rel) => {
                            match rel.target_partname(sp.partname.base_uri().as_str()) {
                                Ok(n) => {
                                    if n.same_as(lp) {
                                        assert(part_named(self@, v[k as int].1) matches Some(sp) && slide_layout_name(sp) == Some(lp@));
                                        return true;
                                    }
                                },
                                Err(_) => {},
                            }
                        },
                        Err(_) => {},
                    }
                },
                None => {},
            }
            k = k + 1;
        }
        false
    }

    fn first_rel_to_exec(rels: &Vec<&crate::opc::package::Relationship>, dir: &str, lp: &PackURI) -> (r: Option<String>)
        ensures
            match first_rel_to(rels@.map_values(|x: &crate::opc::package::Relationship| x@), dir@, lp@, 0) {
                Some(rid) => r matches Some(s) && s@ == rid,
                None => r is None,
            },
    {
        let ghost rv = rels@.map_values(|x: &crate::opc::package::Relationship| x@);
        let mut j: usize = 0;
        while j < rels.len()
            invariant
                j <= rels.len(),
                rv == rels@.map_values(|x: &crate::opc::package::Relationship| x@),
                first_rel_to(rv, dir@, lp@, 0) == first_rel_to(rv, dir@, lp@, j as int),
            decreases rels.len() - j,
        {
            assert(rv[j as int] == rels@[j as int]@);
            match rels[j].target_partname(dir) {
                Ok(n) => {
                    if n.same_as(lp) {
                        return Some(rels[j].r_id.clone());
                    }
                },
                Err(_) => {},
            }
            j = j + 1;
        }
        None
    }

    /// Removes a slide layout that no slide uses: its part, its relationship from its
    /// slide master and its `<p:sldLayoutId>` entry there.
    pub fn remove_slide_layout(&mut self, layout_ref: &SlideLayoutRef) -> (r: Result<(), PptxError>)
        ensures
            match layout_removed(old(self)@, layout_ref@.partname) {
                Some(p) => r is Ok && final(self)@ == p,
                None => r is Err && final(self)@ == old(self)@,
            },
    {
        proof { self.lemma_view(); }
        let slides = self.slides()?;
        let ghost v = slides_of_view(self@);
        assert(slides@.map_values(|s: SlideRef| s@) =~= v);
        if self.layout_in_use_exec(&slides, &layout_ref.partname) {
            return Err(PptxError::InvalidXml(layout_ref.name.clone()));
        }
        let masters = self.slide_masters()?;
        let ghost ms = masters_of(self@).unwrap();
        let mut i: usize = 0;
        while i < masters.len()
            invariant
                i <= masters.len(),
                masters@.len() == ms.len(),
                masters_of(self@) == Some(ms),
                self@ == self.package@,
                self@ == old(self)@,
                crate::presentation::slides_of(self@) is Some,
                !layout_in_use(self@, crate::presentation::slides_of(self@).unwrap(), layout_ref@.partname),
                forall|k: int| 0 <= k < ms.len() ==> #[trigger] masters@[k]@ == ms[k],
                layout_owner(self@, ms, layout_ref@.partname, 0) == layout_owner(self@, ms, layout_ref@.partname, i as int),
            decreases masters.len() - i,
        {
            assert(masters@[i as int]@ == ms[i as int]);
            let mi = match self.package.part_index(masters[i].partname.as_str()) {
                Some(x) => x,
                None => return Err(PptxError::PartNotFound(masters[i].partname.to_string())),
            };
            proof { crate::opc::package::lemma_find_part_found(self@.parts, ms[i as int].1, 0); }
            let mp = self.package.part_at(mi);
            let lrels = mp.rels.all_by_reltype(SLIDE_LAYOUT);
            assert(lrels@.map_values(|x: &crate::opc::package::Relationship| x@) =~= of_type(mp@.rels.rels, SLIDE_LAYOUT@));
            match Self::first_rel_to_exec(&lrels, mp.partname.base_uri().as_str(), &layout_ref.partname) {
                Some(rid) => {
                    let nb = crate::slide::remove_layout_from_master_xml(mp.blob.as_slice(), rid.as_str())?;
                    let ghost pkg0 = self@;
                    let ghost mpv = pkg0.parts[mi as int];
                    let mut rels = self.package.take_rels_at(mi);
                    let _ = rels.remove(rid.as_str());
                    let ghost nrels = rels@.rels;
                    self.package.set_rels_at(mi, rels);
                    self.package.set_blob_at(mi, nb);
                    proof { self.lemma_view(); }
                    assert(self@.parts =~= pkg0.parts.update(
                        mi as int,
                        PartView { blob: nb@, rels: crate::opc::package::RelsView { rels: nrels, base: mpv.rels.base }, ..mpv },
                    ));
                    let _ = self.package.remove_part(&layout_ref.partname);
                    proof { self.lemma_view(); }
                    return Ok(());
                },
                None => {},
            }
            i = i + 1;
        }
        Err(PptxError::PartNotFound(layout_ref.partname.to_string()))
    }
}

spec fn slides_of_view(pkg: PackageView) -> Seq<(Seq<char>, Seq<char>)> {
    crate::presentation::slides_of(pkg).unwrap()
}

/// The bytes of the first part that one of `rels`, resolved against `dir`, points to;
/// external relationships and missing parts are passed over.
pub open spec fn first_part_blob(pkg: PackageView, dir: Seq<char>, rels: Seq<RelView>) -> Option<Seq<u8>>
    decreases rels.len(),
{
    if rels.len() == 0 {
        None
    } else if !rels[0].is_external && part_named(pkg, resolve(dir, rels[0].target_ref)) is Some {
        Some(part_named(pkg, resolve(dir, rels[0].target_ref)).unwrap().blob)
    } else {
        first_part_blob(pkg, dir, rels.drop_first())
    }
}

/// The bytes of the first part that a relationship of type `rt` of part `sp` points to.
pub open spec fn related_blob(pkg: PackageView, sp: PartView, rt: Seq<char>) -> Option<Seq<u8>> {
    first_part_blob(pkg, part_dir(sp), of_type(sp.rels.rels, rt))
}

/// The diagram with data part `dp` on slide part `sp`: the colour, style, layout and
/// drawing parts are those the slide's relationships of each type give.
pub open spec fn smartart_parts(pkg: PackageView, sp: PartView, dp: PartView) -> SmartArtView {
    SmartArtView {
        data: dp.blob,
        colors: related_blob(pkg, sp, DIAGRAM_COLORS@),
        style: related_blob(pkg, sp, DIAGRAM_STYLE@),
        layout: related_blob(pkg, sp, DIAGRAM_LAYOUT@),
        drawing: related_blob(pkg, sp, DIAGRAM_DRAWING@),
    }
}

/// SmartArt methods.
impl Presentation {
    fn related_part_blob(&self, sp: &Part, rel_type: &str) -> (r: Option<Vec<u8>>)
        ensures
            opt_bytes(r) == related_blob(self@, sp@, rel_type@),
    {
        proof { self.lemma_view(); }
        let dir = sp.partname.base_uri();
        let rels = sp.rels.all_by_reltype(rel_type);
        let ghost rs = of_type(sp@.rels.rels, rel_type@);
        assert(rs.skip(0) =~= rs);
        let mut i: usize = 0;
        while i < rels.len()
            invariant
                i <= rels.len(),
                rels@.len() == rs.len(),
                forall|k: int| 0 <= k < rs.len() ==> #[trigger] rels@[k]@ == rs[k],
                dir@ == part_dir(sp@),
                self@ == self.package@,
                related_blob(self@, sp@, rel_type@) == first_part_blob(self@, dir@, rs.skip(i as int)),
            decreases rels.len() - i,
        {
            assert(rs.skip(i as int).drop_first() =~= rs.skip(i as int + 1));
            assert(rs.skip(i as int)[0] == rs[i as int]);
            assert(rels@[i as int]@ == rs[i as int]);
            if let Ok(pn) = rels[i].target_partname(dir.as_str()) {
                if let Some(p) = self.package.part(&pn) {
                    return Some(p.blob.clone());
                }
            }
            i = i + 1;
        }
        None
    }

    /// The parts of the SmartArt diagram whose data part relationship `r_id` of the slide
    /// gives: `None` when the slide has no such relationship or the data part is missing;
    /// the other parts are those the slide's diagram relationships of each type point to.
    pub fn smartart_data(&self, r_id: &str, slide_ref: &SlideRef) -> (r: Result<Option<SmartArt>, PptxError>)
        ensures
            match part_named(self@, slide_ref@.1) {
                None => r matches Err(e) && e is PartNotFound,
                Some(sp) => match find_rid(sp.rels.rels, r_id@, 0) {
                    None => r matches Ok(None),
                    Some(j) => if sp.rels.rels[j].is_external {
                        r matches Err(e) && e is InvalidXml
                    } else {
                        match part_named(self@, resolve(part_dir(sp), sp.rels.rels[j].target_ref)) {
                            None => r matches Ok(None),
                            Some(dp) => r matches Ok(Some(s)) && s@ == smartart_parts(self@, sp, dp),
                        }
                    },
                },
            },
    {
        proof { self.lemma_view(); }
        let sp = match self.package.part(&slide_ref.partname) {
            Some(p) => p,
            None => return Err(PptxError::PartNotFound(slide_ref.partname.to_string())),
        };
        let rel = match sp.rels.get(r_id) {
            Some(rel) => rel,
            None => return Ok(None),
        };
        let dir = sp.partname.base_uri();
        let data_name = rel.target_partname(dir.as_str())?;
        let data_xml = match self.package.part(&data_name) {
            Some(p) => p.blob.clone(),
            None => return Ok(None),
        };
        Ok(Some(SmartArt {
            data_xml,
            colors_xml: self.related_part_blob(sp, DIAGRAM_COLORS),
            style_xml: self.related_part_blob(sp, DIAGRAM_STYLE),
            layout_xml: self.related_part_blob(sp, DIAGRAM_LAYOUT),
            drawing_xml: self.related_part_blob(sp, DIAGRAM_DRAWING),
        }))
    }
}

/// Theme methods.
impl Presentation {
    /// The colour scheme of the theme of the first slide master: `Ok(None)` without a
    /// master, without a theme relationship from it, without the theme part, or when the
    /// theme has no complete scheme (see `theme_scheme_of`).
    pub fn theme_colors(&self) -> (r: Result<Option<ThemeColorScheme>, PptxError>)
        ensures
            match masters_of(self@) {
                None => r is Err,
                Some(ms) => if ms.len() == 0 {
                    r matches Ok(None)
                } else {
                    match part_named(self@, ms[0].1) {
                        None => r matches Err(e) && e is PartNotFound,
                        Some(mp) => match find_type(mp.rels.rels, THEME@, 0) {
                            None => r matches Ok(None),
                            Some(j) => if mp.rels.rels[j].is_external {
                                r matches Err(e) && e is InvalidXml
                            } else {
                                match part_named(self@, resolve(part_dir(mp), mp.rels.rels[j].target_ref)) {
                                    None => r matches Ok(None),
                                    Some(tp) => match theme_scheme_of(tp.blob) {
                                        Ok(Some(c)) => r matches Ok(Some(x)) && x@ == c,
                                        Ok(None) => r matches Ok(None),
                                        Err(f) => r matches Err(e) && font_fail_is(e, f),
                                    },
                                }
                            },
                        },
                    }
                },
            },
    {
        proof { self.lemma_view(); }
        let masters = self.slide_masters()?;
        if masters.len() == 0 {
            return Ok(None);
        }
        let mref = &masters[0];
        assert(mref@ == masters_of(self@).unwrap()[0]);
        let mp = match self.package.part(&mref.partname) {
            Some(p) => p,
            None => return Err(PptxError::PartNotFound(mref.partname.to_string())),
        };
        let rel = match mp.rels.by_reltype(THEME) {
            Ok(rel) => rel,
            Err(_) => return Ok(None),
        };
        let dir = mp.partname.base_uri();
        let theme_name = rel.target_partname(dir.as_str())?;
        match self.package.part(&theme_name) {
            Some(tp) => parse_theme_color_scheme(tp.blob.as_slice()),
            None => Ok(None),
        }
    }
}

} // verus!
