//! What the slide operations keep and change, stated over the package model.
use vstd::prelude::*;
use crate::id_list::{Entry, valid_entries, valid_entry, is_rid_char, lemma_parse_id_list_valid};
use crate::opc::package::{PackageView, PartView, RelView, find_part, find_type, lemma_find_part_found, lemma_find_part_names, next_rid, next_rid_from, rid_text, zeros};
use crate::slide::{blob_text, slide_entries, sld_list, sld_elem, without_rid, moved, new_slide_id, max_slide_id, lemma_slide_entries_written, lemma_size_written, slide_size_of, id_used};
use super::{pres_index, pres_name, with_blob, lemma_pres_index, part_dir, part_named};
use super::layouts::master_named;
use super::notes::{first_target, notes_created, new_notes_name, notes_master_created, notes_master_of, new_notes_master_name};
use crate::opc::relationship_type::NOTES_MASTER;
use crate::opc::relationship_type::NOTES_SLIDE;
use crate::opc::package::next_partname_from;
use super::extras::{put, or_added, vba_name, vba_set, vba_of, origin_name, with_origin, signature_added, print_settings_set, pres_end};
use crate::edit::{inserted, removed_element, rfind, open_tag, close_tag};
use crate::print_settings::{PrintSettings, print_settings_xml};
use crate::scan::find_from;
use super::slide_props::{transition_set, animations_set, slide_end};
use crate::signature::{DigitalSignature, DIGITAL_SIGNATURE_RT, DIGITAL_SIGNATURE_ORIGIN_CT, DIGITAL_SIGNATURE_XML_CT, xml_declaration, signature_xml};
use crate::opc::package::{of_type, has_part};
use vstd::utf8::encode_utf8;
use crate::opc::content_type::VBA_PROJECT as VBA_CT;
use crate::opc::relationship_type::VBA_PROJECT as VBA_RT;
use crate::opc::uri::{canonical, segments, plain_segment, base_uri_spec, relative_ref_spec, join_slashed, lemma_canonical_join, lemma_relative_ref_resolves};
use crate::opc::package::RelsView;
use super::layouts::{layout_removed, layouts_of, layouts_of_masters, master_layouts, layouts_from_rels, masters_of, layout_owner, first_rel_to};
use crate::opc::relationship_type::SLIDE_LAYOUT;
use crate::opc::uri::resolve;
use crate::opc::package::find_rid;
use super::props::{core_name, core_part, core_props_of, core_set, core_target};
use crate::core_properties::core_of_bytes;
use crate::opc::relationship_type::CORE_PROPERTIES;
use super::slides::{resolved_refs, slides_of, index_of_part, slide_list, slide_added, slide_deleted, slide_moved, size_set, pres_slide_size, default_size, new_slide_name};

verus! {

proof fn lemma_entries_valid(b: Seq<u8>)
    ensures
        slide_entries(b) matches Some(l) ==> valid_entries(l),
{
    if let Some(t) = blob_text(b) {
        lemma_parse_id_list_valid(t, sld_list(), sld_elem());
    }
}

proof fn lemma_nat_digits_rid(n: nat)
    ensures
        forall|i: int| 0 <= i < crate::text::nat_digits(n).len() ==> is_rid_char(#[trigger] crate::text::nat_digits(n)[i]),
{
    crate::scan::lemma_nat_digits(n);
}

proof fn lemma_zeros_rid(n: nat)
    ensures
        forall|i: int| 0 <= i < zeros(n).len() ==> #[trigger] zeros(n)[i] == '0',
    decreases n,
{
    if n > 0 {
        lemma_zeros_rid((n - 1) as nat);
        assert forall|i: int| 0 <= i < zeros(n).len() implies #[trigger] zeros(n)[i] == '0' by {
            if i < zeros(n).len() - 1 {
                assert(zeros(n)[i] == zeros((n - 1) as nat)[i]);
            }
        }
    }
}

proof fn lemma_next_rid_chars(rels: Seq<RelView>, n: nat)
    ensures
        next_rid_from(rels, n).len() > 0,
        forall|i: int| 0 <= i < next_rid_from(rels, n).len() ==> is_rid_char(#[trigger] next_rid_from(rels, n)[i]),
    decreases rels.len() + 2 - n,
{
    if n == 0 {
        lemma_next_rid_chars(rels, 1);
    } else if n > rels.len() + 1 {
        let m = crate::opc::package::max_rid_len(rels) + 1;
        lemma_zeros_rid(m);
        let r = seq!['r', 'I', 'd'] + zeros(m);
        assert forall|i: int| 0 <= i < r.len() implies is_rid_char(#[trigger] r[i]) by {
            if i >= 3 {
                assert(r[i] == zeros(m)[i - 3]);
            }
        }
    } else if !crate::opc::package::rid_used(rels, rid_text(n)) {
        lemma_nat_digits_rid(n);
        let r = rid_text(n);
        assert forall|i: int| 0 <= i < r.len() implies is_rid_char(#[trigger] r[i]) by {
            if i >= 3 {
                assert(r[i] == crate::text::nat_digits(n)[i - 3]);
            }
        }
    } else {
        lemma_next_rid_chars(rels, n + 1);
    }
}

proof fn lemma_smallest_exists(l: Seq<Entry>, c: nat)
    requires
        256 <= c <= max_slide_id(),
        !id_used(l, c),
    ensures
        exists|m: nat| 256 <= m <= max_slide_id() && !id_used(l, m) && forall|d: nat| 256 <= d < m ==> id_used(l, d),
    decreases c,
{
    if forall|d: nat| 256 <= d < c ==> id_used(l, d) {
    } else {
        let d = choose|d: nat| 256 <= d < c && !id_used(l, d);
        lemma_smallest_exists(l, d);
    }
}

proof fn lemma_new_id_bound(l: Seq<Entry>)
    ensures
        new_slide_id(l) matches Some(id) ==> id <= max_slide_id(),
{
    if exists|c: nat| 256 <= c <= max_slide_id() && !id_used(l, c) {
        let c = choose|c: nat| 256 <= c <= max_slide_id() && !id_used(l, c);
        lemma_smallest_exists(l, c);
    }
}

proof fn lemma_pres_index_names(a: PackageView, b: PackageView)
    requires
        a.pkg_rels == b.pkg_rels,
        a.parts.len() == b.parts.len(),
        forall|k: int| 0 <= k < a.parts.len() ==> a.parts[k].partname == b.parts[k].partname,
    ensures
        pres_index(a) == pres_index(b),
        pres_name(a) == pres_name(b),
{
    if let Some(n) = pres_name(a) {
        lemma_find_part_names(a.parts, b.parts, n, 0);
        lemma_pres_index(a);
        lemma_pres_index(b);
    }
}

/// A part found before another is appended is still found there.
pub proof fn lemma_find_part_push(a: Seq<PartView>, x: PartView, n: Seq<char>, i: int)
    requires
        0 <= i,
        find_part(a, n, i) is Some,
    ensures
        find_part(a.push(x), n, i) == find_part(a, n, i),
    decreases a.len() - i,
{
    if i < a.len() && a[i].partname != n {
        lemma_find_part_push(a, x, n, i + 1);
    }
}

proof fn lemma_find_part_remove(a: Seq<PartView>, k: int, n: Seq<char>, i: int)
    requires
        0 <= i,
        0 <= k < a.len(),
        a[k].partname != n,
        find_part(a, n, i) is Some,
    ensures
        find_part(a.remove(k), n, if i <= k { i } else { i - 1 }) == (match find_part(a, n, i) {
            Some(j) => Some(if j < k { j } else { j - 1 }),
            None => None,
        }),
    decreases a.len() - i,
{
    let b = a.remove(k);
    if i < a.len() && a[i].partname != n {
        lemma_find_part_remove(a, k, n, i + 1);
        if i < k {
            assert(b[i] == a[i]);
        } else if i == k {
        } else {
            assert(b[i - 1] == a[i]);
        }
    } else {
        if i < k {
            assert(b[i] == a[i]);
        } else {
            assert(b[i - 1] == a[i]);
        }
    }
}

/// Adding a slide appends exactly one entry, the new slide's, to the slide list, and the
/// new slide's part is in the package.
pub proof fn lemma_add_slide_appends(pkg: PackageView, layout: Seq<char>)
    ensures
        slide_added(pkg, layout) matches Some((rid, name, p)) ==> {
            let l = slide_list(pkg).unwrap();
            &&& slide_list(p) == Some(l.push((rid, new_slide_id(l).unwrap())))
            &&& slide_list(p).unwrap().len() == l.len() + 1
            &&& crate::opc::package::has_part(p.parts, name)
            &&& name == new_slide_name(pkg)
        },
{
    if let Some((rid, name, p)) = slide_added(pkg, layout) {
        lemma_pres_index(pkg);
        let pi = pres_index(pkg).unwrap();
        let pp = pkg.parts[pi];
        let l = slide_entries(pp.blob).unwrap();
        let id = new_slide_id(l).unwrap();
        lemma_entries_valid(pp.blob);
        lemma_next_rid_chars(pp.rels.rels, 1);
        lemma_new_id_bound(l);
        let l2 = l.push((rid, id));
        assert(valid_entries(l2)) by {
            assert forall|k: int| 0 <= k < l2.len() implies valid_entry(#[trigger] l2[k]) by {
                if k < l.len() {
                    assert(l2[k] == l[k]);
                }
            }
        }
        lemma_slide_entries_written(pp.blob, l2);
        let sp = super::slides::new_slide_part(name, layout);
        let q = PackageView { parts: pkg.parts.push(sp), pkg_rels: pkg.pkg_rels };
        let n = pres_name(pkg).unwrap();
        lemma_find_part_push(pkg.parts, sp, n, 0);
        lemma_pres_index(q);
        lemma_pres_index_names(q, p);
        assert(pres_index(p) == Some(pi));
        assert(p.parts[pi].blob == with_slide_entries_blob(pp.blob, l2));
        crate::opc::package::lemma_next_partname_unused(pkg.parts, "/ppt/slides/slide"@, ".xml"@, 1);
        assert(p.parts[pkg.parts.len() as int].partname == name);
    }
}

spec fn with_slide_entries_blob(b: Seq<u8>, l: Seq<Entry>) -> Seq<u8> {
    crate::slide::with_slide_entries(b, l).unwrap()
}

proof fn lemma_without_rid_valid(l: Seq<Entry>, rid: Seq<char>)
    requires
        valid_entries(l),
    ensures
        valid_entries(without_rid(l, rid)),
        forall|k: int| 0 <= k < without_rid(l, rid).len() ==> #[trigger] without_rid(l, rid)[k].0 != rid,
    decreases l.len(),
{
    if l.len() > 0 {
        let w = without_rid(l.drop_last(), rid);
        assert forall|k: int| 0 <= k < l.drop_last().len() implies valid_entry(#[trigger] l.drop_last()[k]) by {
            assert(l.drop_last()[k] == l[k]);
        }
        lemma_without_rid_valid(l.drop_last(), rid);
        if l.last().0 != rid {
            let w2 = w.push(l.last());
            assert forall|k: int| 0 <= k < w2.len() implies valid_entry(#[trigger] w2[k]) && w2[k].0 != rid by {
                if k < w.len() {
                    assert(w2[k] == w[k]);
                }
            }
        }
    }
}

/// Deleting a slide removes exactly the entries with its relationship id from the slide
/// list, and its part (when it was the only part with that name) is gone.
pub proof fn lemma_delete_slide_removes(pkg: PackageView, slide: (Seq<char>, Seq<char>))
    ensures
        slide_deleted(pkg, slide) matches Some(p) ==> {
            let l = slide_list(pkg).unwrap();
            &&& slide_list(p) == Some(without_rid(l, slide.0))
            &&& forall|k: int| 0 <= k < slide_list(p).unwrap().len() ==> #[trigger] slide_list(p).unwrap()[k].0 != slide.0
            &&& p.parts.len() <= pkg.parts.len()
        },
{
    if let Some(p) = slide_deleted(pkg, slide) {
        lemma_pres_index(pkg);
        let pi = pres_index(pkg).unwrap();
        let pp = pkg.parts[pi];
        let l = slide_entries(pp.blob).unwrap();
        lemma_entries_valid(pp.blob);
        lemma_without_rid_valid(l, slide.0);
        let l2 = without_rid(l, slide.0);
        lemma_slide_entries_written(pp.blob, l2);
        let nb = crate::slide::with_slide_entries(pp.blob, l2).unwrap();
        let rels = match crate::opc::package::find_rid(pp.rels.rels, slide.0, 0) {
            Some(j) => pp.rels.rels.remove(j),
            None => pp.rels.rels,
        };
        let p1 = pkg.parts.update(pi, PartView { blob: nb, rels: crate::opc::package::RelsView { rels, base: pp.rels.base }, ..pp });
        let q1 = PackageView { parts: p1, pkg_rels: pkg.pkg_rels };
        lemma_pres_index_names(pkg, q1);
        lemma_pres_index(q1);
        let n = pres_name(pkg).unwrap();
        match find_part(p1, slide.1, 0) {
            Some(k) => {
                lemma_find_part_found(p1, slide.1, 0);
                lemma_find_part_remove(p1, k, n, 0);
                lemma_pres_index(p);
                let j: int = if pi < k { pi } else { pi - 1 };
                assert(pres_index(p) == Some(j));
                if pi < k {
                    assert(p.parts[j] == p1[pi]);
                } else {
                    assert(p.parts[j] == p1[pi]);
                }
            },
            None => {},
        }
    }
}

proof fn lemma_moved_valid(l: Seq<Entry>, from: int, to: int)
    requires
        valid_entries(l),
        0 <= from < l.len(),
        0 <= to < l.len(),
    ensures
        valid_entries(moved(l, from, to)),
{
    let r = l.remove(from);
    assert forall|k: int| 0 <= k < r.len() implies valid_entry(#[trigger] r[k]) by {
        if k < from {
            assert(r[k] == l[k]);
        } else {
            assert(r[k] == l[k + 1]);
        }
    }
    let m = r.insert(to, l[from]);
    assert forall|k: int| 0 <= k < m.len() implies valid_entry(#[trigger] m[k]) by {
        if k < to {
            assert(m[k] == r[k]);
        } else if k == to {
        } else {
            assert(m[k] == r[k - 1]);
        }
    }
}

/// Moving a slide moves its entry in the slide list and keeps the others in order.
pub proof fn lemma_move_slide_permutes(pkg: PackageView, from: int, to: int)
    ensures
        slide_moved(pkg, from, to) matches Some(p) ==> {
            let l = slide_list(pkg).unwrap();
            &&& slide_list(p) == Some(moved(l, from, to))
            &&& slide_list(p).unwrap().len() == l.len()
            &&& slide_list(p).unwrap()[to] == l[from]
        },
{
    if let Some(p) = slide_moved(pkg, from, to) {
        lemma_pres_index(pkg);
        let pi = pres_index(pkg).unwrap();
        let l = slide_entries(pkg.parts[pi].blob).unwrap();
        lemma_entries_valid(pkg.parts[pi].blob);
        lemma_moved_valid(l, from, to);
        lemma_slide_entries_written(pkg.parts[pi].blob, moved(l, from, to));
        lemma_pres_index_names(pkg, p);
    }
}

/// Moving a slide between two positions of the slide list always succeeds.
pub proof fn lemma_move_slide_in_range_succeeds(pkg: PackageView, from: int, to: int)
    requires
        slide_list(pkg) matches Some(l) && 0 <= from < l.len() && 0 <= to < l.len(),
    ensures
        slide_moved(pkg, from, to) is Some,
{
    let pi = pres_index(pkg).unwrap();
    let b = pkg.parts[pi].blob;
    let t = blob_text(b).unwrap();
    assert(find_from(t, crate::id_list::list_open(sld_list()), 0) is Some);
}

proof fn lemma_master_named_from(ms: Seq<(Seq<char>, Seq<char>)>, name: Seq<char>, i: int)
    requires
        0 <= i,
    ensures
        match master_named(ms, name, i) {
            Some(k) => i <= k < ms.len() && ms[k].1 == name && forall|j: int| i <= j < k ==> #[trigger] ms[j].1 != name,
            None => forall|j: int| i <= j < ms.len() ==> #[trigger] ms[j].1 != name,
        },
    decreases ms.len() - i,
{
    if i < ms.len() && ms[i].1 != name {
        lemma_master_named_from(ms, name, i + 1);
    }
}

/// The master that a layout's master part name finds is the first master with that part
/// name; none is found exactly when no master has it.
pub proof fn lemma_master_for_layout_first(ms: Seq<(Seq<char>, Seq<char>)>, name: Seq<char>)
    ensures
        match master_named(ms, name, 0) {
            Some(k) => 0 <= k < ms.len() && ms[k].1 == name && forall|j: int| 0 <= j < k ==> #[trigger] ms[j].1 != name,
            None => forall|j: int| 0 <= j < ms.len() ==> #[trigger] ms[j].1 != name,
        },
{
    lemma_master_named_from(ms, name, 0);
}

/// Setting the width or height reads back as the new size, the other side unchanged
/// (or from the default size when there was none).
pub proof fn lemma_size_set_reads_back(pkg: PackageView, width: Option<int>, height: Option<int>)
    requires
        width matches Some(w) ==> crate::slide::fits_i64(w),
        height matches Some(h) ==> crate::slide::fits_i64(h),
    ensures
        size_set(pkg, width, height) matches Some(p) ==> {
            let c = match pres_slide_size(pkg).unwrap() { Some(x) => x, None => default_size() };
            pres_slide_size(p) == Some(Some((
                match width { Some(w) => w, None => c.0 },
                match height { Some(h) => h, None => c.1 },
            )))
        },
{
    if let Some(p) = size_set(pkg, width, height) {
        lemma_pres_index(pkg);
        let pi = pres_index(pkg).unwrap();
        let b = pkg.parts[pi].blob;
        let cur = slide_size_of(b).unwrap();
        let c = match cur { Some(x) => x, None => default_size() };
        let w = match width { Some(w) => w, None => c.0 };
        let h = match height { Some(h) => h, None => c.1 };
        lemma_size_in_range(b);
        lemma_size_written(b, w, h);
        lemma_pres_index_names(pkg, p);
    }
}

proof fn lemma_size_in_range(b: Seq<u8>)
    ensures
        slide_size_of(b) matches Some(Some((w, h))) ==> crate::slide::fits_i64(w) && crate::slide::fits_i64(h),
{
}

proof fn lemma_find_type_push_found(rels: Seq<RelView>, x: RelView, rt: Seq<char>, i: int)
    requires
        0 <= i,
        find_type(rels, rt, i) is Some,
    ensures
        find_type(rels.push(x), rt, i) == find_type(rels, rt, i),
    decreases rels.len() - i,
{
    if i < rels.len() && rels[i].rel_type != rt {
        lemma_find_type_push_found(rels, x, rt, i + 1);
    }
}

proof fn lemma_find_type_push_new(rels: Seq<RelView>, x: RelView, rt: Seq<char>, i: int)
    requires
        0 <= i <= rels.len(),
        find_type(rels, rt, i) is None,
        x.rel_type == rt,
    ensures
        find_type(rels.push(x), rt, i) == Some(rels.len() as int),
    decreases rels.len() - i,
{
    if i < rels.len() {
        lemma_find_type_push_new(rels, x, rt, i + 1);
    }
}

proof fn lemma_find_part_push_new(parts: Seq<PartView>, x: PartView, n: Seq<char>, i: int)
    requires
        0 <= i <= parts.len(),
        find_part(parts, n, i) is None,
        x.partname == n,
    ensures
        find_part(parts.push(x), n, i) == Some(parts.len() as int),
    decreases parts.len() - i,
{
    if i < parts.len() {
        lemma_find_part_push_new(parts, x, n, i + 1);
    }
}

proof fn lemma_vba_name()
    ensures
        canonical(vba_name()),
{
    reveal_strlit("/ppt/vbaProject.bin");
    reveal_strlit("ppt");
    reveal_strlit("vbaProject.bin");
    let segs = seq!["ppt"@, "vbaProject.bin"@];
    assert(plain_segment(segs[0]));
    assert(plain_segment(segs[1]));
    assert(segs.drop_last() =~= seq!["ppt"@]);
    assert(seq!["ppt"@].drop_last() =~= Seq::<Seq<char>>::empty());
    assert(join_slashed(seq!["ppt"@]) == join_slashed(Seq::<Seq<char>>::empty()) + seq!['/'] + "ppt"@);
    assert(join_slashed(seq!["ppt"@]) =~= seq!['/'] + "ppt"@);
    assert(join_slashed(segs) == join_slashed(seq!["ppt"@]) + seq!['/'] + "vbaProject.bin"@);
    assert(join_slashed(segs) =~= vba_name());
    lemma_canonical_join(segs);
}

/// After the VBA project is set, reading it gives the bytes set, when the presentation
/// part's first vbaProject relationship (if any) already points to `/ppt/vbaProject.bin`,
/// the presentation part is not that part, and its directory has plain segments.
pub proof fn lemma_vba_set_reads_back(pkg: PackageView, data: Seq<u8>)
    requires
        pres_name(pkg) matches Some(pn) && pn != vba_name() && forall|i: int|
            0 <= i < segments(base_uri_spec(pn)).len() ==> plain_segment(#[trigger] segments(base_uri_spec(pn))[i]),
        pres_index(pkg) matches Some(pi) && (first_target(pkg.parts[pi], VBA_RT@) == Some(None::<Seq<char>>)
            || first_target(pkg.parts[pi], VBA_RT@) == Some(Some(vba_name()))),
    ensures
        vba_set(pkg, data) matches Some(p) ==> vba_of(p) == Some(Some(data)),
{
    lemma_pres_index(pkg);
    let pn = pres_name(pkg).unwrap();
    let pi = pres_index(pkg).unwrap();
    let pp = pkg.parts[pi];
    let vp = PartView {
        partname: vba_name(),
        content_type: VBA_CT@,
        blob: data,
        rels: RelsView { rels: Seq::empty(), base: base_uri_spec(vba_name()) },
    };
    let parts1 = put(pkg.parts, vp);
    lemma_find_part_found(pkg.parts, vba_name(), 0);
    lemma_find_part_found(pkg.parts, pn, 0);
    // the presentation part keeps its place
    match find_part(pkg.parts, vba_name(), 0) {
        Some(iv) => {
            assert(parts1 == pkg.parts.update(iv, vp));
            assert(iv != pi);
            lemma_find_part_names(pkg.parts, parts1, pn, 0);
            lemma_find_part_names(pkg.parts, parts1, vba_name(), 0);
        },
        None => {
            assert(parts1 == pkg.parts.push(vp));
            lemma_find_part_push(pkg.parts, vp, pn, 0);
            lemma_find_part_push_new(pkg.parts, vp, vba_name(), 0);
        },
    }
    assert(find_part(parts1, pn, 0) == Some(pi));
    assert(parts1[pi] == pp);
    let target = relative_ref_spec(vba_name(), base_uri_spec(pn));
    let nrels = or_added(pp.rels, VBA_RT@, target);
    let npp = PartView { rels: nrels, ..pp };
    let p = PackageView { parts: parts1.update(pi, npp), pkg_rels: pkg.pkg_rels };
    assert(vba_set(pkg, data) == Some(p));
    lemma_find_part_names(parts1, p.parts, pn, 0);
    lemma_find_part_names(parts1, p.parts, vba_name(), 0);
    assert(pres_name(p) == Some(pn));
    lemma_pres_index(p);
    assert(pres_index(p) == Some(pi));
    // the first vbaProject relationship points to the VBA part
    lemma_vba_name();
    lemma_relative_ref_resolves(vba_name(), base_uri_spec(pn));
    crate::opc::package::lemma_find_type_found(pp.rels.rels, VBA_RT@, 0);
    match find_type(pp.rels.rels, VBA_RT@, 0) {
        Some(j) => {
            if nrels.rels != pp.rels.rels {
                lemma_find_type_push_found(pp.rels.rels, nrels.rels.last(), VBA_RT@, 0);
                assert(nrels.rels == pp.rels.rels.push(nrels.rels.last()));
            }
            assert(find_type(nrels.rels, VBA_RT@, 0) == Some(j));
        },
        None => {
            assert(!(exists|i: int| 0 <= i < pp.rels.rels.len() && #[trigger] pp.rels.rels[i].rel_type == VBA_RT@
                && pp.rels.rels[i].target_ref == target && !pp.rels.rels[i].is_external));
            let x = RelView { r_id: next_rid(pp.rels.rels), rel_type: VBA_RT@, target_ref: target, is_external: false };
            assert(nrels.rels == pp.rels.rels.push(x));
            lemma_find_type_push_new(pp.rels.rels, x, VBA_RT@, 0);
            assert(part_dir(p.parts[pi]) == base_uri_spec(pn));
        },
    }
    assert(first_target(p.parts[pi], VBA_RT@) == Some(Some(vba_name())));
    lemma_find_part_found(p.parts, vba_name(), 0);
    assert(part_named(p, vba_name()) == Some(vp));
}

/// Whether every character is an ASCII digit.
spec fn all_digits(d: Seq<char>) -> bool {
    forall|i: int| 0 <= i < d.len() ==> #[trigger] crate::scan::is_digit(d[i])
}

proof fn lemma_next_partname_digits(parts: Seq<PartView>, prefix: Seq<char>, suffix: Seq<char>, n: nat)
    ensures
        exists|d: Seq<char>| all_digits(d) && d.len() > 0 && #[trigger] (prefix + d + suffix) == next_partname_from(parts, prefix, suffix, n),
    decreases parts.len() + 2 - n,
{
    if n == 0 {
        lemma_next_partname_digits(parts, prefix, suffix, 1);
    } else if n > parts.len() + 1 {
        let m = crate::opc::package::max_name_len(parts) + 1;
        lemma_zeros_rid(m);
        crate::opc::package::lemma_zeros_len(m);
        let d = zeros(m);
        assert(all_digits(d));
        assert((prefix + d + suffix) == next_partname_from(parts, prefix, suffix, n));
    } else if !crate::opc::package::has_part(parts, prefix + crate::text::nat_digits(n) + suffix) {
        crate::scan::lemma_nat_digits(n);
        let d = crate::text::nat_digits(n);
        assert(all_digits(d));
        assert((prefix + d + suffix) == next_partname_from(parts, prefix, suffix, n));
    } else {
        lemma_next_partname_digits(parts, prefix, suffix, n + 1);
    }
}

proof fn lemma_notes_name_canonical(d: Seq<char>)
    requires
        all_digits(d),
    ensures
        canonical("/ppt/notesSlides/notesSlide"@ + d + ".xml"@),
{
    reveal_strlit("/ppt/notesSlides/notesSlide");
    reveal_strlit(".xml");
    reveal_strlit("ppt");
    reveal_strlit("notesSlides");
    reveal_strlit("notesSlide");
    let w = "notesSlide"@ + d + ".xml"@;
    let segs = seq!["ppt"@, "notesSlides"@, w];
    assert(plain_segment(segs[0]));
    assert(plain_segment(segs[1])) by {
        let t = "notesSlides"@;
        assert(t.len() == 11);
        assert forall|i: int| 0 <= i < t.len() implies t[i] != '/' by {
            assert(t == seq!['n', 'o', 't', 'e', 's', 'S', 'l', 'i', 'd', 'e', 's']);
        }
    }
    assert(plain_segment(segs[2])) by {
        assert forall|i: int| 0 <= i < w.len() implies w[i] != '/' by {
            if 10 <= i < 10 + d.len() {
                assert(w[i] == d[i - 10]);
                assert(crate::scan::is_digit(d[i - 10]));
            }
        }
        assert(w.len() > 2);
    }
    assert(segs.drop_last() =~= seq!["ppt"@, "notesSlides"@]);
    assert(seq!["ppt"@, "notesSlides"@].drop_last() =~= seq!["ppt"@]);
    assert(seq!["ppt"@].drop_last() =~= Seq::<Seq<char>>::empty());
    assert(join_slashed(seq!["ppt"@]) == join_slashed(Seq::<Seq<char>>::empty()) + seq!['/'] + "ppt"@);
    assert(join_slashed(seq!["ppt"@]) =~= seq!['/'] + "ppt"@);
    assert(join_slashed(seq!["ppt"@, "notesSlides"@]) == join_slashed(seq!["ppt"@]) + seq!['/'] + "notesSlides"@);
    assert(join_slashed(seq!["ppt"@, "notesSlides"@]) =~= seq!['/'] + "ppt"@ + seq!['/'] + "notesSlides"@);
    assert(join_slashed(segs) == join_slashed(seq!["ppt"@, "notesSlides"@]) + seq!['/'] + w);
    assert(join_slashed(segs) =~= "/ppt/notesSlides/notesSlide"@ + d + ".xml"@);
    lemma_canonical_join(segs);
}

/// Asking for a slide's notes slide a second time gives the same notes slide and changes
/// nothing, when the slide's directory has plain segments.
pub proof fn lemma_notes_slide_or_create_idempotent(pkg: PackageView, slide: Seq<char>)
    requires
        forall|i: int| 0 <= i < segments(base_uri_spec(slide)).len() ==> plain_segment(#[trigger] segments(base_uri_spec(slide))[i]),
    ensures
        notes_created(pkg, slide) matches Some((n, p)) ==> notes_created(p, slide) == Some((n, p)),
{
    if let Some((n, p)) = notes_created(pkg, slide) {
        lemma_find_part_found(pkg.parts, slide, 0);
        let si = find_part(pkg.parts, slide, 0).unwrap();
        let sp = pkg.parts[si];
        if first_target(sp, NOTES_SLIDE@) == Some(None::<Seq<char>>) {
            let name = new_notes_name(pkg);
            crate::opc::package::lemma_next_partname_unused(pkg.parts, "/ppt/notesSlides/notesSlide"@, ".xml"@, 1);
            lemma_next_partname_digits(pkg.parts, "/ppt/notesSlides/notesSlide"@, ".xml"@, 1);
            let d = choose|d: Seq<char>| all_digits(d) && d.len() > 0 && #[trigger] ("/ppt/notesSlides/notesSlide"@ + d + ".xml"@)
                == next_partname_from(pkg.parts, "/ppt/notesSlides/notesSlide"@, ".xml"@, 1);
            lemma_notes_name_canonical(d);
            lemma_relative_ref_resolves(name, base_uri_spec(slide));
            let np = p.parts[pkg.parts.len() as int];
            assert(name != slide);
            let q = pkg.parts.push(np);
            lemma_find_part_push(pkg.parts, np, slide, 0);
            lemma_find_part_names(q, p.parts, slide, 0);
            assert(find_part(p.parts, slide, 0) == Some(si));
            let nsp = p.parts[si];
            crate::opc::package::lemma_find_type_found(sp.rels.rels, NOTES_SLIDE@, 0);
            lemma_find_type_push_new(sp.rels.rels, nsp.rels.rels.last(), NOTES_SLIDE@, 0);
            assert(nsp.rels.rels == sp.rels.rels.push(nsp.rels.rels.last()));
            assert(first_target(nsp, NOTES_SLIDE@) == Some(Some(name)));
        }
    }
}

/// The number of signature relationships of the signature origin part (none without it).
pub open spec fn signature_count(pkg: PackageView) -> nat {
    match part_named(pkg, origin_name()) {
        Some(op) => of_type(op.rels.rels, DIGITAL_SIGNATURE_RT@).len(),
        None => 0,
    }
}

/// Adding a digital signature adds exactly one signature relationship to the origin part,
/// and the new signature part holds the signature's XML.
pub proof fn lemma_add_signature_counts(pkg: PackageView, sig: DigitalSignature)
    ensures
        signature_count(signature_added(pkg, sig)) == signature_count(pkg) + 1,
        has_part(signature_added(pkg, sig).parts, next_partname_from(with_origin(pkg).parts, "/_xmlsignatures/sig"@, ".xml"@, 1)),
{
    let p1 = with_origin(pkg);
    let name = next_partname_from(p1.parts, "/_xmlsignatures/sig"@, ".xml"@, 1);
    crate::opc::package::lemma_next_partname_unused(p1.parts, "/_xmlsignatures/sig"@, ".xml"@, 1);
    lemma_find_part_found(pkg.parts, origin_name(), 0);
    let op0 = PartView {
        partname: origin_name(),
        content_type: DIGITAL_SIGNATURE_ORIGIN_CT@,
        blob: Seq::empty(),
        rels: RelsView { rels: Seq::empty(), base: base_uri_spec(origin_name()) },
    };
    // the origin part in p1, and what it counts
    if has_part(pkg.parts, origin_name()) {
        assert(p1 == pkg);
        assert(find_part(pkg.parts, origin_name(), 0) is Some);
    } else {
        assert(find_part(pkg.parts, origin_name(), 0) is None);
        assert(p1.parts == pkg.parts.push(op0));
        lemma_find_part_push_new(pkg.parts, op0, origin_name(), 0);
        assert(of_type(op0.rels.rels, DIGITAL_SIGNATURE_RT@) =~= Seq::<RelView>::empty());
    }
    lemma_find_part_found(p1.parts, origin_name(), 0);
    let k = find_part(p1.parts, origin_name(), 0).unwrap();
    assert(signature_count(p1) == signature_count(pkg));
    let sp = PartView {
        partname: name,
        content_type: DIGITAL_SIGNATURE_XML_CT@,
        blob: encode_utf8(xml_declaration() + signature_xml(sig)),
        rels: RelsView { rels: Seq::empty(), base: base_uri_spec(name) },
    };
    let parts2 = p1.parts.push(sp);
    lemma_find_part_push(p1.parts, sp, origin_name(), 0);
    let op = parts2[k];
    let rel = RelView {
        r_id: next_rid(op.rels.rels),
        rel_type: DIGITAL_SIGNATURE_RT@,
        target_ref: relative_ref_spec(name, base_uri_spec(origin_name())),
        is_external: false,
    };
    let nop = PartView { rels: RelsView { rels: op.rels.rels.push(rel), base: op.rels.base }, ..op };
    let p = signature_added(pkg, sig);
    assert(p.parts == parts2.update(k, nop));
    lemma_find_part_names(parts2, p.parts, origin_name(), 0);
    crate::opc::package::lemma_of_type_push(op.rels.rels, rel, DIGITAL_SIGNATURE_RT@);
    assert(part_named(p, origin_name()) == Some(nop));
    assert(p.parts[p1.parts.len() as int].partname == name);
}

proof fn lemma_notes_master_name_canonical(d: Seq<char>)
    requires
        all_digits(d),
    ensures
        canonical("/ppt/notesMasters/notesMaster"@ + d + ".xml"@),
{
    reveal_strlit("/ppt/notesMasters/notesMaster");
    reveal_strlit(".xml");
    reveal_strlit("ppt");
    reveal_strlit("notesMasters");
    reveal_strlit("notesMaster");
    let w = "notesMaster"@ + d + ".xml"@;
    let segs = seq!["ppt"@, "notesMasters"@, w];
    assert(plain_segment(segs[0]));
    assert(plain_segment(segs[1])) by {
        let t = "notesMasters"@;
        assert(t.len() == 12);
        assert forall|i: int| 0 <= i < t.len() implies t[i] != '/' by {
            assert(t == seq!['n', 'o', 't', 'e', 's', 'M', 'a', 's', 't', 'e', 'r', 's']);
        }
    }
    assert(plain_segment(segs[2])) by {
        assert forall|i: int| 0 <= i < w.len() implies w[i] != '/' by {
            if 11 <= i < 11 + d.len() {
                assert(w[i] == d[i - 11]);
                assert(crate::scan::is_digit(d[i - 11]));
            }
        }
        assert(w.len() > 2);
    }
    assert(segs.drop_last() =~= seq!["ppt"@, "notesMasters"@]);
    assert(seq!["ppt"@, "notesMasters"@].drop_last() =~= seq!["ppt"@]);
    assert(seq!["ppt"@].drop_last() =~= Seq::<Seq<char>>::empty());
    assert(join_slashed(seq!["ppt"@]) == join_slashed(Seq::<Seq<char>>::empty()) + seq!['/'] + "ppt"@);
    assert(join_slashed(seq!["ppt"@]) =~= seq!['/'] + "ppt"@);
    assert(join_slashed(seq!["ppt"@, "notesMasters"@]) == join_slashed(seq!["ppt"@]) + seq!['/'] + "notesMasters"@);
    assert(join_slashed(seq!["ppt"@, "notesMasters"@]) =~= seq!['/'] + "ppt"@ + seq!['/'] + "notesMasters"@);
    assert(join_slashed(segs) == join_slashed(seq!["ppt"@, "notesMasters"@]) + seq!['/'] + w);
    assert(join_slashed(segs) =~= "/ppt/notesMasters/notesMaster"@ + d + ".xml"@);
    lemma_canonical_join(segs);
}

/// Asking for the notes master a second time gives the same notes master and changes
/// nothing, when the presentation part's directory has plain segments.
pub proof fn lemma_notes_master_or_create_idempotent(pkg: PackageView)
    requires
        pres_name(pkg) matches Some(pn) && forall|i: int|
            0 <= i < segments(base_uri_spec(pn)).len() ==> plain_segment(#[trigger] segments(base_uri_spec(pn))[i]),
    ensures
        notes_master_created(pkg) matches Some((m, p)) ==> notes_master_created(p) == Some((m, p)),
{
    if let Some((m, p)) = notes_master_created(pkg) {
        if notes_master_of(pkg) == Some(None::<(Seq<char>, Seq<char>)>) {
            lemma_pres_index(pkg);
            let pn = pres_name(pkg).unwrap();
            let pi = pres_index(pkg).unwrap();
            let pp = pkg.parts[pi];
            let name = new_notes_master_name(pkg);
            crate::opc::package::lemma_next_partname_unused(pkg.parts, "/ppt/notesMasters/notesMaster"@, ".xml"@, 1);
            lemma_next_partname_digits(pkg.parts, "/ppt/notesMasters/notesMaster"@, ".xml"@, 1);
            let d = choose|d: Seq<char>| all_digits(d) && d.len() > 0 && #[trigger] ("/ppt/notesMasters/notesMaster"@ + d + ".xml"@)
                == next_partname_from(pkg.parts, "/ppt/notesMasters/notesMaster"@, ".xml"@, 1);
            lemma_notes_master_name_canonical(d);
            lemma_relative_ref_resolves(name, base_uri_spec(pn));
            lemma_find_part_found(pkg.parts, pn, 0);
            let np = p.parts[pkg.parts.len() as int];
            let q = pkg.parts.push(np);
            lemma_find_part_push(pkg.parts, np, pn, 0);
            lemma_find_part_names(q, p.parts, pn, 0);
            assert(pres_name(p) == Some(pn));
            lemma_pres_index(p);
            assert(pres_index(p) == Some(pi));
            let npp = p.parts[pi];
            crate::opc::package::lemma_find_type_found(pp.rels.rels, NOTES_MASTER@, 0);
            lemma_find_type_push_new(pp.rels.rels, npp.rels.rels.last(), NOTES_MASTER@, 0);
            assert(npp.rels.rels == pp.rels.rels.push(npp.rels.rels.last()));
            super::slides::lemma_next_rid_nonempty(pp.rels.rels, 1);
            assert(notes_master_of(p) == Some(Some(m)));
        }
    }
}

/// Setting print settings replaces the ones set before: setting `s1` and then `s2` gives
/// what setting `s2` alone gives, when presentation.xml, once its first `<p:prnPr>` element
/// is removed, holds no other start or end tag of that name.
pub proof fn lemma_print_settings_replaced(pkg: PackageView, s1: PrintSettings, s2: PrintSettings)
    requires
        pres_index(pkg) matches Some(pi) && blob_text(pkg.parts[pi].blob) matches Some(t) && {
            let t1 = removed_element(t, "p:prnPr"@);
            &&& find_from(t1, open_tag("p:prnPr"@), 0) is None
            &&& find_from(t1, close_tag("p:prnPr"@), 0) is None
        },
    ensures
        print_settings_set(pkg, s1) matches Some(p1) ==> print_settings_set(p1, s2) == print_settings_set(pkg, s2),
{
    if let Some(p1) = print_settings_set(pkg, s1) {
        lemma_pres_index(pkg);
        let pi = pres_index(pkg).unwrap();
        let t = blob_text(pkg.parts[pi].blob).unwrap();
        let t1 = removed_element(t, "p:prnPr"@);
        let q = rfind(t1, pres_end()).unwrap();
        crate::edit::lemma_rfind_from(t1, pres_end(), t1.len() - pres_end().len());
        let u1 = inserted(t1, q, print_settings_xml(s1));
        assert(p1 == with_blob(pkg, pi, encode_utf8(u1)));
        lemma_pres_index_names(pkg, p1);
        crate::slide::lemma_blob_text_encoded(u1);
        crate::print_settings::lemma_settings_xml_element(s1);
        crate::edit::lemma_remove_inserted(t1, q, print_settings_xml(s1), "p:prnPr"@);
        assert(removed_element(u1, "p:prnPr"@) == t1);
        let u2 = inserted(t1, q, print_settings_xml(s2));
        assert(print_settings_set(p1, s2) == Some(with_blob(p1, pi, encode_utf8(u2))));
        assert(print_settings_set(pkg, s2) == Some(with_blob(pkg, pi, encode_utf8(u2))));
        assert(with_blob(p1, pi, encode_utf8(u2)).parts =~= with_blob(pkg, pi, encode_utf8(u2)).parts);
    }
}

proof fn lemma_plain_names()
    ensures
        crate::edit::plain_name("p:transition"@),
        crate::edit::plain_name("p:timing"@),
{
    reveal_strlit("p:transition");
    reveal_strlit("p:timing");
    assert("p:transition"@ =~= seq!['p', ':', 't', 'r', 'a', 'n', 's', 'i', 't', 'i', 'o', 'n']);
    assert("p:timing"@ =~= seq!['p', ':', 't', 'i', 'm', 'i', 'n', 'g']);
}

/// Removing element `name` from `inserted(t1, q, x)` gives `t1` back, for `x` one element
/// of that name (empty or with its end tag) and `t1` without tags of that name.
proof fn lemma_remove_one(t1: Seq<char>, q: int, x: Seq<char>, name: Seq<char>)
    requires
        0 <= q <= t1.len(),
        crate::edit::plain_name(name),
        find_from(t1, open_tag(name), 0) is None,
        find_from(t1, close_tag(name), 0) is None,
        crate::edit::empty_element_of(x, name) || crate::edit::paired_element_of(x, name),
    ensures
        removed_element(inserted(t1, q, x), name) == t1,
{
    if crate::edit::empty_element_of(x, name) {
        crate::edit::lemma_remove_inserted(t1, q, x, name);
    } else {
        crate::edit::lemma_remove_inserted_paired(t1, q, x, name);
    }
}

/// Setting a slide's transition replaces the one set before: setting `x1` and then `x2`
/// gives what setting `x2` alone gives, when `x1` is one `<p:transition>` element (empty or
/// with its end tag) and the slide XML, once its first `<p:transition>` element is removed,
/// holds no other start or end tag of that name.
pub proof fn lemma_transition_replaced(pkg: PackageView, name: Seq<char>, x1: Seq<char>, x2: Seq<char>)
    requires
        find_part(pkg.parts, name, 0) matches Some(i) && blob_text(pkg.parts[i].blob) matches Some(t) && {
            let t1 = removed_element(t, "p:transition"@);
            &&& find_from(t1, open_tag("p:transition"@), 0) is None
            &&& find_from(t1, close_tag("p:transition"@), 0) is None
        },
        crate::edit::empty_element_of(x1, "p:transition"@) || crate::edit::paired_element_of(x1, "p:transition"@),
    ensures
        transition_set(pkg, name, x1) matches Some(p1) ==> transition_set(p1, name, x2) == transition_set(pkg, name, x2),
{
    if let Some(p1) = transition_set(pkg, name, x1) {
        lemma_find_part_found(pkg.parts, name, 0);
        let i = find_part(pkg.parts, name, 0).unwrap();
        let t = blob_text(pkg.parts[i].blob).unwrap();
        let t1 = removed_element(t, "p:transition"@);
        let q = rfind(t1, slide_end()).unwrap();
        crate::edit::lemma_rfind_from(t1, slide_end(), t1.len() - slide_end().len());
        let u1 = inserted(t1, q, x1);
        assert(p1 == with_blob(pkg, i, encode_utf8(u1)));
        lemma_find_part_names(pkg.parts, p1.parts, name, 0);
        crate::slide::lemma_blob_text_encoded(u1);
        lemma_plain_names();
        lemma_remove_one(t1, q, x1, "p:transition"@);
        let u2 = inserted(t1, q, x2);
        assert(transition_set(p1, name, x2) == Some(with_blob(p1, i, encode_utf8(u2))));
        assert(transition_set(pkg, name, x2) == Some(with_blob(pkg, i, encode_utf8(u2))));
        assert(with_blob(p1, i, encode_utf8(u2)).parts =~= with_blob(pkg, i, encode_utf8(u2)).parts);
    }
}

/// Setting a slide's animations replaces those set before: setting `x1` and then `x2` gives
/// what setting `x2` alone gives, when `x1` is empty or one `<p:timing>` element (empty or
/// with its end tag) and the slide XML, once its first `<p:timing>` element is removed,
/// holds no other start or end tag of that name.
pub proof fn lemma_animations_replaced(pkg: PackageView, name: Seq<char>, x1: Seq<char>, x2: Seq<char>)
    requires
        find_part(pkg.parts, name, 0) matches Some(i) && blob_text(pkg.parts[i].blob) matches Some(t) && {
            let t1 = removed_element(t, "p:timing"@);
            &&& find_from(t1, open_tag("p:timing"@), 0) is None
            &&& find_from(t1, close_tag("p:timing"@), 0) is None
        },
        x1.len() == 0 || crate::edit::empty_element_of(x1, "p:timing"@) || crate::edit::paired_element_of(x1, "p:timing"@),
    ensures
        animations_set(pkg, name, x1) matches Some(p1) ==> animations_set(p1, name, x2) == animations_set(pkg, name, x2),
{
    if let Some(p1) = animations_set(pkg, name, x1) {
        lemma_find_part_found(pkg.parts, name, 0);
        let i = find_part(pkg.parts, name, 0).unwrap();
        let t = blob_text(pkg.parts[i].blob).unwrap();
        let t1 = removed_element(t, "p:timing"@);
        lemma_plain_names();
        let u1 = if x1.len() == 0 {
            t1
        } else {
            let q = rfind(t1, slide_end()).unwrap();
            crate::edit::lemma_rfind_from(t1, slide_end(), t1.len() - slide_end().len());
            lemma_remove_one(t1, q, x1, "p:timing"@);
            inserted(t1, q, x1)
        };
        assert(p1 == with_blob(pkg, i, encode_utf8(u1)));
        assert(removed_element(u1, "p:timing"@) == t1);
        lemma_find_part_names(pkg.parts, p1.parts, name, 0);
        crate::slide::lemma_blob_text_encoded(u1);
        if x2.len() == 0 {
            assert(animations_set(p1, name, x2) == Some(with_blob(p1, i, encode_utf8(t1))));
            assert(animations_set(pkg, name, x2) == Some(with_blob(pkg, i, encode_utf8(t1))));
            assert(with_blob(p1, i, encode_utf8(t1)).parts =~= with_blob(pkg, i, encode_utf8(t1)).parts);
        } else {
            match rfind(t1, slide_end()) {
                Some(q) => {
                    let u2 = inserted(t1, q, x2);
                    assert(animations_set(p1, name, x2) == Some(with_blob(p1, i, encode_utf8(u2))));
                    assert(animations_set(pkg, name, x2) == Some(with_blob(pkg, i, encode_utf8(u2))));
                    assert(with_blob(p1, i, encode_utf8(u2)).parts =~= with_blob(pkg, i, encode_utf8(u2)).parts);
                },
                None => {
                    assert(animations_set(p1, name, x2) is None);
                    assert(animations_set(pkg, name, x2) is None);
                },
            }
        }
    }
}

proof fn lemma_index_of_part_at(v: Seq<(Seq<char>, Seq<char>)>, i: int, k: int)
    requires
        0 <= k <= i < v.len(),
        forall|a: int, b: int| 0 <= a < b < v.len() ==> v[a].1 != v[b].1,
    ensures
        index_of_part(v, v[i].1, k) == Some(i),
    decreases i - k,
{
    if k < i {
        lemma_index_of_part_at(v, i, k + 1);
    }
}

/// The position of the slide at position `i` is `i`, when no two slides share a part.
pub proof fn lemma_slide_index_of_get(pkg: PackageView, i: int)
    requires
        slides_of(pkg) matches Some(v) && 0 <= i < v.len() && forall|a: int, b: int| 0 <= a < b < v.len() ==> v[a].1 != v[b].1,
    ensures
        index_of_part(slides_of(pkg).unwrap(), slides_of(pkg).unwrap()[i].1, 0) == Some(i),
{
    lemma_index_of_part_at(slides_of(pkg).unwrap(), i, 0);
}

/// Whether relationship `j` of part `x` is a layout relationship to `lp`.
pub open spec fn layout_rel_to(x: PartView, j: int, lp: Seq<char>) -> bool {
    &&& 0 <= j < x.rels.rels.len()
    &&& x.rels.rels[j].rel_type == SLIDE_LAYOUT@
    &&& !x.rels.rels[j].is_external
    &&& resolve(part_dir(x), x.rels.rels[j].target_ref) == lp
}

/// Whether some part of `pkg` has a layout relationship to `lp`.
pub open spec fn layout_targeted(pkg: PackageView, lp: Seq<char>) -> bool {
    exists|i: int, j: int| 0 <= i < pkg.parts.len() && #[trigger] layout_rel_to(pkg.parts[i], j, lp)
}

proof fn lemma_of_type_member(rels: Seq<RelView>, rt: Seq<char>, k: int)
    requires
        0 <= k < of_type(rels, rt).len(),
    ensures
        exists|j: int| 0 <= j < rels.len() && rels[j] == of_type(rels, rt)[k] && #[trigger] rels[j].rel_type == rt,
    decreases rels.len(),
{
    if rels.len() > 0 {
        let prev = of_type(rels.drop_last(), rt);
        if rels.last().rel_type == rt && k == prev.len() {
            assert(rels[rels.len() - 1] == of_type(rels, rt)[k]);
        } else {
            if rels.last().rel_type == rt {
                assert(of_type(rels, rt)[k] == prev[k]);
            }
            lemma_of_type_member(rels.drop_last(), rt, k);
            let j = choose|j: int| 0 <= j < rels.drop_last().len() && rels.drop_last()[j] == prev[k]
                && #[trigger] rels.drop_last()[j].rel_type == rt;
            assert(rels[j] == rels.drop_last()[j]);
        }
    }
}

proof fn lemma_from_rels_origin(pkg: PackageView, mname: Seq<char>, dir: Seq<char>, rels: Seq<RelView>, k: int)
    requires
        layouts_from_rels(pkg, mname, dir, rels) matches Some(l) && 0 <= k < l.len(),
    ensures
        exists|j: int| 0 <= j < rels.len() && !rels[j].is_external
            && #[trigger] resolve(dir, rels[j].target_ref) == layouts_from_rels(pkg, mname, dir, rels).unwrap()[k].partname,
    decreases rels.len(),
{
    let l = layouts_from_rels(pkg, mname, dir, rels).unwrap();
    let prev = layouts_from_rels(pkg, mname, dir, rels.drop_last()).unwrap();
    if k == prev.len() {
        let j = rels.len() - 1;
        assert(rels[j] == rels.last());
        assert(resolve(dir, rels[j].target_ref) == l[k].partname);
    } else {
        assert(l[k] == prev[k]);
        lemma_from_rels_origin(pkg, mname, dir, rels.drop_last(), k);
        let j = choose|j: int| 0 <= j < rels.drop_last().len() && !rels.drop_last()[j].is_external
            && #[trigger] resolve(dir, rels.drop_last()[j].target_ref) == prev[k].partname;
        assert(rels[j] == rels.drop_last()[j]);
        assert(resolve(dir, rels[j].target_ref) == l[k].partname);
    }
}

proof fn lemma_masters_origin(pkg: PackageView, ms: Seq<(Seq<char>, Seq<char>)>, k: int)
    requires
        layouts_of_masters(pkg, ms) matches Some(l) && 0 <= k < l.len(),
    ensures
        layout_targeted(pkg, layouts_of_masters(pkg, ms).unwrap()[k].partname),
    decreases ms.len(),
{
    let l = layouts_of_masters(pkg, ms).unwrap();
    let prev = layouts_of_masters(pkg, ms.drop_last()).unwrap();
    let x = master_layouts(pkg, ms.last().1).unwrap();
    assert(l == prev + x);
    if k < prev.len() {
        assert(l[k] == prev[k]);
        lemma_masters_origin(pkg, ms.drop_last(), k);
    } else {
        let k2 = k - prev.len();
        assert(l[k] == x[k2]);
        let name = x[k2].partname;
        lemma_find_part_found(pkg.parts, ms.last().1, 0);
        let i = find_part(pkg.parts, ms.last().1, 0).unwrap();
        let mp = pkg.parts[i];
        let rels = of_type(mp.rels.rels, SLIDE_LAYOUT@);
        lemma_from_rels_origin(pkg, ms.last().1, part_dir(mp), rels, k2);
        let j = choose|j: int| 0 <= j < rels.len() && !rels[j].is_external
            && #[trigger] resolve(part_dir(mp), rels[j].target_ref) == name;
        lemma_of_type_member(mp.rels.rels, SLIDE_LAYOUT@, j);
        let j2 = choose|j2: int| 0 <= j2 < mp.rels.rels.len() && mp.rels.rels[j2] == rels[j]
            && #[trigger] mp.rels.rels[j2].rel_type == SLIDE_LAYOUT@;
        assert(layout_rel_to(pkg.parts[i], j2, name));
    }
}

proof fn lemma_first_rel_to_found(rels: Seq<RelView>, dir: Seq<char>, lp: Seq<char>, i: int)
    requires
        0 <= i,
        first_rel_to(rels, dir, lp, i) is Some,
    ensures
        exists|m: int| i <= m < rels.len() && !rels[m].is_external && #[trigger] resolve(dir, rels[m].target_ref) == lp
            && rels[m].r_id == first_rel_to(rels, dir, lp, i).unwrap(),
    decreases rels.len() - i,
{
    if i < rels.len() && !(!rels[i].is_external && resolve(dir, rels[i].target_ref) == lp) {
        lemma_first_rel_to_found(rels, dir, lp, i + 1);
    }
}

proof fn lemma_owner_found(pkg: PackageView, ms: Seq<(Seq<char>, Seq<char>)>, lp: Seq<char>, i: int)
    requires
        0 <= i,
        layout_owner(pkg, ms, lp, i) matches Some(Some(_)),
    ensures
        ({
            let (mname, rid) = layout_owner(pkg, ms, lp, i).unwrap().unwrap();
            part_named(pkg, mname) matches Some(mp)
                && first_rel_to(of_type(mp.rels.rels, SLIDE_LAYOUT@), part_dir(mp), lp, 0) == Some(rid)
        }),
    decreases ms.len() - i,
{
    if i < ms.len() {
        let mp = part_named(pkg, ms[i].1).unwrap();
        if first_rel_to(of_type(mp.rels.rels, SLIDE_LAYOUT@), part_dir(mp), lp, 0) is None {
            lemma_owner_found(pkg, ms, lp, i + 1);
        }
    }
}

proof fn lemma_find_rid_unique(rels: Seq<RelView>, rid: Seq<char>, m: int, i: int)
    requires
        0 <= i <= m < rels.len(),
        rels[m].r_id == rid,
        forall|a: int, b: int| 0 <= a < b < rels.len() ==> rels[a].r_id != rels[b].r_id,
    ensures
        find_rid(rels, rid, i) == Some(m),
    decreases m - i,
{
    if i < m {
        lemma_find_rid_unique(rels, rid, m, i + 1);
    }
}

/// After a layout is removed, the layouts listed no longer include it, when it was the
/// target of a single layout relationship of the package and each part's relationship ids
/// are distinct.
pub proof fn lemma_removed_layout_not_listed(pkg: PackageView, lp: Seq<char>)
    requires
        forall|i1: int, j1: int, i2: int, j2: int|
            0 <= i1 < pkg.parts.len() && 0 <= i2 < pkg.parts.len() && #[trigger] layout_rel_to(pkg.parts[i1], j1, lp)
                && #[trigger] layout_rel_to(pkg.parts[i2], j2, lp) ==> i1 == i2 && j1 == j2,
        forall|i: int, a: int, b: int|
            0 <= i < pkg.parts.len() && 0 <= a < b < pkg.parts[i].rels.rels.len()
                ==> #[trigger] pkg.parts[i].rels.rels[a].r_id != #[trigger] pkg.parts[i].rels.rels[b].r_id,
    ensures
        layout_removed(pkg, lp) matches Some(p) ==> (layouts_of(p) matches Some(l) ==> forall|k: int|
            0 <= k < l.len() ==> #[trigger] l[k].partname != lp),
{
    if let Some(p) = layout_removed(pkg, lp) {
        let ms = masters_of(pkg).unwrap();
        let (mname, rid) = layout_owner(pkg, ms, lp, 0).unwrap().unwrap();
        let mi = find_part(pkg.parts, mname, 0).unwrap();
        lemma_find_part_found(pkg.parts, mname, 0);
        let mp = pkg.parts[mi];
        lemma_owner_found(pkg, ms, lp, 0);
        // the owner's own relationship to the layout
        let lrels = of_type(mp.rels.rels, SLIDE_LAYOUT@);
        lemma_first_rel_to_found(lrels, part_dir(mp), lp, 0);
        let m = choose|m: int| 0 <= m < lrels.len() && !lrels[m].is_external
            && #[trigger] resolve(part_dir(mp), lrels[m].target_ref) == lp && lrels[m].r_id == rid;
        lemma_of_type_member(mp.rels.rels, SLIDE_LAYOUT@, m);
        let jo = choose|jo: int| 0 <= jo < mp.rels.rels.len() && mp.rels.rels[jo] == lrels[m]
            && #[trigger] mp.rels.rels[jo].rel_type == SLIDE_LAYOUT@;
        assert(layout_rel_to(pkg.parts[mi], jo, lp));
        lemma_find_rid_unique(mp.rels.rels, rid, jo, 0);
        let nrels = mp.rels.rels.remove(jo);
        let p1 = pkg.parts.update(mi, PartView { blob: crate::slide::without_layout(mp.blob, rid).unwrap(), rels: RelsView { rels: nrels, base: mp.rels.base }, ..mp });
        // no part of the result keeps a layout relationship to the layout
        assert forall|i: int, j: int| 0 <= i < p1.len() implies !#[trigger] layout_rel_to(p1[i], j, lp) by {
            if layout_rel_to(p1[i], j, lp) {
                if i == mi {
                    let j2 = if j < jo { j } else { j + 1 };
                    assert(nrels[j] == mp.rels.rels[j2]);
                    assert(layout_rel_to(pkg.parts[mi], j2, lp));
                } else {
                    assert(p1[i] == pkg.parts[i]);
                    assert(layout_rel_to(pkg.parts[i], j, lp));
                }
            }
        }
        let p2 = match find_part(p1, lp, 0) {
            Some(kk) => p1.remove(kk),
            None => p1,
        };
        assert(p == PackageView { parts: p2, pkg_rels: pkg.pkg_rels });
        lemma_find_part_found(p1, lp, 0);
        assert(!layout_targeted(p, lp)) by {
            if layout_targeted(p, lp) {
                let (i, j) = choose|i: int, j: int| 0 <= i < p.parts.len() && #[trigger] layout_rel_to(p.parts[i], j, lp);
                match find_part(p1, lp, 0) {
                    Some(kk) => {
                        let i2 = if i < kk { i } else { i + 1 };
                        assert(p.parts[i] == p1[i2]);
                        assert(layout_rel_to(p1[i2], j, lp));
                    },
                    None => {
                        assert(layout_rel_to(p1[i], j, lp));
                    },
                }
            }
        }
        if let Some(l) = layouts_of(p) {
            assert forall|k: int| 0 <= k < l.len() implies #[trigger] l[k].partname != lp by {
                lemma_masters_origin(p, masters_of(p).unwrap(), k);
            }
        }
    }
}

/// `/docProps/core.xml` is a canonical part name.
proof fn lemma_core_name()
    ensures
        canonical(core_name()),
{
    reveal_strlit("/docProps/core.xml");
    reveal_strlit("docProps");
    reveal_strlit("core.xml");
    let segs = seq!["docProps"@, "core.xml"@];
    assert(plain_segment(segs[0]));
    assert(plain_segment(segs[1]));
    assert(segs.drop_last() =~= seq!["docProps"@]);
    assert(seq!["docProps"@].drop_last() =~= Seq::<Seq<char>>::empty());
    assert(join_slashed(seq!["docProps"@]) == join_slashed(Seq::<Seq<char>>::empty()) + seq!['/'] + "docProps"@);
    assert(join_slashed(seq!["docProps"@]) =~= seq!['/'] + "docProps"@);
    assert(join_slashed(segs) == join_slashed(seq!["docProps"@]) + seq!['/'] + "core.xml"@);
    assert(join_slashed(segs) =~= core_name());
    lemma_canonical_join(segs);
}

/// After the core properties are set, reading them gives the values set, when the
/// package relationships resolve against `/`, the package's first core-properties
/// relationship (if any) already points to `docProps/core.xml`, and the XML reader reads
/// the written part back.
pub proof fn lemma_core_props_reads_back(pkg: PackageView, v: Seq<Seq<char>>)
    requires
        pkg.pkg_rels.base == seq!['/'],
        find_type(pkg.pkg_rels.rels, CORE_PROPERTIES@, 0) matches Some(j) ==> pkg.pkg_rels.rels[j].target_ref == core_target()
            && !pkg.pkg_rels.rels[j].is_external,
        core_of_bytes(encode_utf8(crate::core_properties::core_xml(v))) == Ok::<Seq<Seq<char>>, crate::opc::load::LoadFail>(v),
    ensures
        core_props_of(core_set(pkg, v)) == Some(Ok::<Seq<Seq<char>>, crate::opc::load::LoadFail>(v)),
{
    let cp = core_part(v);
    let parts1 = put(pkg.parts, cp);
    lemma_find_part_found(pkg.parts, core_name(), 0);
    match find_part(pkg.parts, core_name(), 0) {
        Some(i) => {
            assert(parts1 == pkg.parts.update(i, cp));
            lemma_find_part_names(pkg.parts, parts1, core_name(), 0);
        },
        None => {
            assert(parts1 == pkg.parts.push(cp));
            lemma_find_part_push_new(pkg.parts, cp, core_name(), 0);
        },
    }
    let p = core_set(pkg, v);
    assert(part_named(p, core_name()) == Some(cp));
    // the relationship that is read points to the part
    lemma_core_name();
    assert(segments(seq!['/']) =~= Seq::<Seq<char>>::empty()) by {
        assert(seq!['/'].drop_first() =~= Seq::<char>::empty());
        let s0 = crate::opc::uri::step(Seq::<Seq<char>>::empty(), Seq::<char>::empty());
        assert(s0 =~= Seq::<Seq<char>>::empty());
        assert(crate::opc::uri::walk(s0, Seq::empty(), Seq::<char>::empty()) == crate::opc::uri::step(s0, Seq::empty()));
        assert(crate::opc::uri::walk(Seq::empty(), Seq::empty(), seq!['/']) == crate::opc::uri::walk(s0, Seq::empty(), seq!['/'].drop_first()));
    }
    lemma_relative_ref_resolves(core_name(), seq!['/']);
    assert(resolve(seq!['/'], core_target()) == core_name());
    let rels = pkg.pkg_rels.rels;
    let nrels = p.pkg_rels.rels;
    crate::opc::package::lemma_find_type_found(rels, CORE_PROPERTIES@, 0);
    match find_type(rels, CORE_PROPERTIES@, 0) {
        Some(j) => {
            assert(rels[j].rel_type == CORE_PROPERTIES@ && rels[j].target_ref == core_target() && !rels[j].is_external);
            assert(nrels == rels);
        },
        None => {
            assert(!(exists|i: int| 0 <= i < rels.len() && #[trigger] rels[i].rel_type == CORE_PROPERTIES@
                && rels[i].target_ref == core_target() && !rels[i].is_external));
            lemma_find_type_push_new(rels, nrels.last(), CORE_PROPERTIES@, 0);
            assert(nrels == rels.push(nrels.last()));
        },
    }
    assert(p.pkg_rels.base == seq!['/']);
}


/// Resolving the entries of a slide list keeps one reference per entry.
pub proof fn lemma_resolved_refs_len(l: Seq<Entry>, rels: Seq<RelView>, base: Seq<char>)
    ensures
        resolved_refs(l, rels, base) matches Some(v) ==> v.len() == l.len(),
    decreases l.len(),
{
    if l.len() > 0 {
        lemma_resolved_refs_len(l.drop_last(), rels, base);
    }
}

/// The number of slides is the number of slides listed: whenever the slides can be listed,
/// the slide list can be read and has as many entries.
pub proof fn lemma_slide_count_slides(pkg: PackageView)
    ensures
        slides_of(pkg) matches Some(v) ==> (slide_list(pkg) matches Some(l) && v.len() == l.len()),
{
    if let Some(i) = pres_index(pkg) {
        if let Some(l) = slide_entries(pkg.parts[i].blob) {
            lemma_resolved_refs_len(l, pkg.parts[i].rels.rels, part_dir(pkg.parts[i]));
        }
    }
}

/// A successful add_slide raises the number of slides by one, and a successful delete_slide
/// leaves the list without the slide's relationship id.
pub proof fn lemma_slide_count_add_delete(pkg: PackageView, layout: Seq<char>, slide: (Seq<char>, Seq<char>))
    ensures
        slide_added(pkg, layout) matches Some((_, _, p)) ==> (slide_list(pkg) matches Some(l) && slide_list(p) matches Some(l2) && l2.len() == l.len() + 1),
        slide_deleted(pkg, slide) matches Some(p) ==> (slide_list(pkg) matches Some(l) && slide_list(p) matches Some(l2)
            && l2 == without_rid(l, slide.0)),
{
    lemma_add_slide_appends(pkg, layout);
    lemma_delete_slide_removes(pkg, slide);
}

/// Each reference that resolving a slide list gives is its entry's id with the target of
/// the first relationship with that id, resolved against `base`.
proof fn lemma_resolved_refs_at(l: Seq<Entry>, rels: Seq<RelView>, base: Seq<char>, k: int)
    requires
        resolved_refs(l, rels, base) is Some,
        0 <= k < l.len(),
    ensures
        ({
            let v = resolved_refs(l, rels, base).unwrap();
            &&& v.len() == l.len()
            &&& v[k].0 == l[k].0
            &&& find_rid(rels, l[k].0, 0) matches Some(j) && 0 <= j < rels.len() && v[k].1 == resolve(base, rels[j].target_ref)
        }),
    decreases l.len(),
{
    lemma_resolved_refs_len(l, rels, base);
    lemma_resolved_refs_len(l.drop_last(), rels, base);
    crate::opc::package::lemma_find_rid_found(rels, l.last().0, 0);
    if k < l.len() - 1 {
        lemma_resolved_refs_at(l.drop_last(), rels, base, k);
    }
}

/// Every entry left by `without_rid` is an entry of the list, with another id.
proof fn lemma_without_rid_from(l: Seq<Entry>, rid: Seq<char>, k: int)
    requires
        0 <= k < without_rid(l, rid).len(),
    ensures
        without_rid(l, rid)[k].0 != rid,
        exists|m: int| 0 <= m < l.len() && l[m] == #[trigger] without_rid(l, rid)[k],
    decreases l.len(),
{
    let w = without_rid(l.drop_last(), rid);
    if l.len() > 0 {
        if k < w.len() {
            lemma_without_rid_from(l.drop_last(), rid, k);
            let m = choose|m: int| 0 <= m < l.drop_last().len() && l.drop_last()[m] == w[k];
            assert(l[m] == without_rid(l, rid)[k]);
        } else {
            assert(without_rid(l, rid)[k] == l.last());
            assert(l[l.len() - 1] == without_rid(l, rid)[k]);
        }
    }
}

/// Removing a relationship with another id leaves the first relationship with `r` in
/// place, shifted down when it came after.
proof fn lemma_find_rid_remove(rels: Seq<RelView>, jd: int, r: Seq<char>, i: int)
    requires
        0 <= jd < rels.len(),
        rels[jd].r_id != r,
        0 <= i <= jd,
    ensures
        find_rid(rels.remove(jd), r, i) == (match find_rid(rels, r, i) {
            Some(j) => Some(if j < jd { j } else { j - 1 }),
            None => None,
        }),
    decreases rels.len() - i,
{
    if i < jd {
        assert(rels.remove(jd)[i] == rels[i]);
        crate::opc::package::lemma_find_rid_found(rels, r, i + 1);
        lemma_find_rid_remove(rels, jd, r, i + 1);
    } else {
        assert(find_rid(rels, r, i) == find_rid(rels, r, i + 1));
        crate::opc::package::lemma_find_rid_found(rels, r, i + 1);
        lemma_find_rid_shift(rels, jd, r, jd + 1);
    }
}

proof fn lemma_find_rid_shift(rels: Seq<RelView>, jd: int, r: Seq<char>, i: int)
    requires
        0 <= jd < rels.len(),
        jd + 1 <= i,
    ensures
        find_rid(rels.remove(jd), r, i - 1) == (match find_rid(rels, r, i) {
            Some(j) => Some(j - 1),
            None => None,
        }),
    decreases rels.len() - i,
{
    if i < rels.len() {
        assert(rels.remove(jd)[i - 1] == rels[i]);
        lemma_find_rid_shift(rels, jd, r, i + 1);
    }
}

/// No reference at or after `i` has part name `name` when none of them has it.
proof fn lemma_index_of_part_none(v: Seq<(Seq<char>, Seq<char>)>, name: Seq<char>, i: int)
    requires
        0 <= i,
        forall|k: int| i <= k < v.len() ==> #[trigger] v[k].1 != name,
    ensures
        index_of_part(v, name, i) is None,
    decreases v.len() - i,
{
    if i < v.len() {
        lemma_index_of_part_none(v, name, i + 1);
    }
}

/// After a slide is deleted its part name is found at no position of the slide list, so
/// `slide_index` of it fails, provided no other relationship id of the list resolved to
/// that part.
pub proof fn lemma_deleted_slide_not_indexed(pkg: PackageView, slide: (Seq<char>, Seq<char>))
    requires
        slides_of(pkg) matches Some(v) && forall|k: int| 0 <= k < v.len() && #[trigger] v[k].1 == slide.1 ==> v[k].0 == slide.0,
    ensures
        slide_deleted(pkg, slide) matches Some(p) ==> (slides_of(p) matches Some(w) ==> index_of_part(w, slide.1, 0) is None),
{
    if let Some(p) = slide_deleted(pkg, slide) {
        lemma_pres_index(pkg);
        let pi = pres_index(pkg).unwrap();
        let pp = pkg.parts[pi];
        let l = slide_entries(pp.blob).unwrap();
        let v = slides_of(pkg).unwrap();
        let base = part_dir(pp);
        lemma_entries_valid(pp.blob);
        lemma_without_rid_valid(l, slide.0);
        let l2 = without_rid(l, slide.0);
        lemma_slide_entries_written(pp.blob, l2);
        let nb = crate::slide::with_slide_entries(pp.blob, l2).unwrap();
        let rels = match find_rid(pp.rels.rels, slide.0, 0) {
            Some(j) => pp.rels.rels.remove(j),
            None => pp.rels.rels,
        };
        let np = PartView { blob: nb, rels: crate::opc::package::RelsView { rels, base: pp.rels.base }, ..pp };
        let p1 = pkg.parts.update(pi, np);
        let q1 = PackageView { parts: p1, pkg_rels: pkg.pkg_rels };
        lemma_pres_index_names(pkg, q1);
        lemma_pres_index(q1);
        let n = pres_name(pkg).unwrap();
        let j: int = match find_part(p1, slide.1, 0) {
            Some(k) => {
                lemma_find_part_found(p1, slide.1, 0);
                lemma_find_part_remove(p1, k, n, 0);
                lemma_pres_index(p);
                if pi < k { pi } else { pi - 1 }
            },
            None => {
                lemma_pres_index(p);
                pi
            },
        };
        assert(pres_index(p) == Some(j));
        assert(p.parts[j] == np);
        assert(part_dir(np) == base);
        if let Some(w) = slides_of(p) {
            assert(slide_entries(nb) == Some(l2));
            assert(w == resolved_refs(l2, rels, base).unwrap());
            assert forall|k: int| 0 <= k < w.len() implies #[trigger] w[k].1 != slide.1 by {
                lemma_resolved_refs_len(l2, rels, base);
                lemma_resolved_refs_at(l2, rels, base, k);
                lemma_without_rid_from(l, slide.0, k);
                let m = choose|m: int| 0 <= m < l.len() && l[m] == #[trigger] l2[k];
                lemma_resolved_refs_at(l, pp.rels.rels, base, m);
                let r = l2[k].0;
                match find_rid(pp.rels.rels, slide.0, 0) {
                    Some(jd) => {
                        crate::opc::package::lemma_find_rid_found(pp.rels.rels, slide.0, 0);
                        lemma_find_rid_remove(pp.rels.rels, jd, r, 0);
                        crate::opc::package::lemma_find_rid_found(pp.rels.rels, r, 0);
                        let jj = find_rid(pp.rels.rels, r, 0).unwrap();
                        assert(rels == pp.rels.rels.remove(jd));
                        if jj < jd {
                            assert(rels[jj] == pp.rels.rels[jj]);
                        } else {
                            assert(rels[jj - 1] == pp.rels.rels[jj]);
                        }
                    },
                    None => {},
                }
                assert(w[k].1 == v[m].1);
                if w[k].1 == slide.1 {
                    assert(v[m].0 == slide.0);
                }
            }
            lemma_index_of_part_none(w, slide.1, 0);
        }
    }
}

/// Putting two parts of the same name in turn is putting the second.
pub proof fn lemma_put_twice(parts: Seq<PartView>, a: PartView, b: PartView)
    requires
        a.partname == b.partname,
    ensures
        put(put(parts, a), b) == put(parts, b),
{
    let n = a.partname;
    lemma_find_part_found(parts, n, 0);
    match find_part(parts, n, 0) {
        Some(i) => {
            let p1 = parts.update(i, a);
            lemma_find_part_names(parts, p1, n, 0);
            assert(p1.update(i, b) =~= parts.update(i, b));
        },
        None => {
            lemma_find_part_push_new(parts, a, n, 0);
            assert(parts.push(a).update(parts.len() as int, b) =~= parts.push(b));
        },
    }
}

/// Setting the core properties twice is setting them once with the second values: the
/// part is replaced, and the second call adds no second relationship.
pub proof fn lemma_core_set_twice(pkg: PackageView, v1: Seq<Seq<char>>, v2: Seq<Seq<char>>)
    ensures
        core_set(core_set(pkg, v1), v2) == core_set(pkg, v2),
        core_set(core_set(pkg, v1), v2).pkg_rels == core_set(pkg, v1).pkg_rels,
{
    lemma_put_twice(pkg.parts, core_part(v1), core_part(v2));
    let r0 = pkg.pkg_rels;
    let r1 = or_added(r0, CORE_PROPERTIES@, core_target());
    if !(exists|i: int| 0 <= i < r0.rels.len() && #[trigger] r0.rels[i].rel_type == CORE_PROPERTIES@
        && r0.rels[i].target_ref == core_target() && !r0.rels[i].is_external) {
        let k = r1.rels.len() - 1;
        assert(r1.rels[k].rel_type == CORE_PROPERTIES@ && r1.rels[k].target_ref == core_target() && !r1.rels[k].is_external);
    }
    assert(or_added(r1, CORE_PROPERTIES@, core_target()) == r1);
}
} // verus!
