//! Repair: removing broken relationships and orphan slide relationships, and restoring
//! the officeDocument relationship.
use vstd::prelude::*;
use crate::id_list::entries_view;
use crate::opc::package::{OpcPackage, PackageView, PartView, RelView, RelsView, Relationships, find_rid, find_type, find_part, has_part, part_by_reltype_spec, rel_views, next_rid, lemma_find_part_found};
use crate::opc::relationship_type::{OFFICE_DOCUMENT, SLIDE};
use crate::opc::uri::{PackURI, resolve, base_uri_spec, is_absolute};
use crate::presentation::Presentation;
use crate::slide::slide_entries;
use crate::text::string_push_str;
use super::{IssueCategory, IssueView, Severity, ValidationIssue, RepairReport, issue, issues_view, append_issues};
use super::validator::{PptxValidator, validation_issues, rid_listed, pkg_rels_loc, pkg_rel_issues, pkg_target_issues,
    parts_target_issues, slide_ref_issues, entry_issues, orphan_issues};

verus! {

/// The ids of the relationships (of `rels`) whose internal target, resolved against
/// `base`, is not a part of `parts`, in order.
pub open spec fn broken_rids(rels: Seq<RelView>, base: Seq<char>, parts: Seq<PartView>) -> Seq<Seq<char>>
    decreases rels.len(),
{
    if rels.len() == 0 {
        Seq::empty()
    } else {
        let r = rels.last();
        let prev = broken_rids(rels.drop_last(), base, parts);
        if !r.is_external && !has_part(parts, resolve(base, r.target_ref)) { prev.push(r.r_id) } else { prev }
    }
}

/// Removing, for each id of `rids` in turn, the first relationship with that id: the
/// relationships left and those removed.
pub open spec fn remove_all(rels: Seq<RelView>, rids: Seq<Seq<char>>) -> (Seq<RelView>, Seq<RelView>)
    decreases rids.len(),
{
    if rids.len() == 0 {
        (rels, Seq::empty())
    } else {
        let (r1, rem) = remove_all(rels, rids.drop_last());
        match find_rid(r1, rids.last(), 0) {
            Some(j) => (r1.remove(j), rem.push(r1[j])),
            None => (r1, rem),
        }
    }
}

/// The report of a removed broken package relationship.
pub open spec fn pkg_fix(r: RelView) -> IssueView {
    issue(
        Severity::High,
        IssueCategory::BrokenRelationship,
        "Removed broken package relationship "@ + r.r_id + " -> "@ + r.target_ref,
        Some(pkg_rels_loc()),
    )
}

/// The report of a removed broken relationship of part `name`.
pub open spec fn part_fix(r: RelView, name: Seq<char>) -> IssueView {
    issue(
        Severity::High,
        IssueCategory::BrokenRelationship,
        "Removed broken relationship "@ + r.r_id + " -> "@ + r.target_ref + " from "@ + name,
        Some(name),
    )
}

/// The report of a removed orphan slide relationship of the presentation part `name`.
pub open spec fn orphan_fix(r: RelView, name: Seq<char>) -> IssueView {
    issue(
        Severity::Medium,
        IssueCategory::OrphanSlide,
        "Removed orphan slide relationship "@ + r.r_id + " (target: "@ + r.target_ref + ")"@,
        Some(name),
    )
}

/// The package after removing its broken package relationships, and the reports.
pub open spec fn pkg_rels_repaired(pkg: PackageView) -> (PackageView, Seq<IssueView>) {
    let (left, removed) = remove_all(pkg.pkg_rels.rels, broken_rids(pkg.pkg_rels.rels, pkg.pkg_rels.base, pkg.parts));
    (
        PackageView { parts: pkg.parts, pkg_rels: RelsView { rels: left, base: pkg.pkg_rels.base } },
        removed.map_values(|r: RelView| pkg_fix(r)),
    )
}

/// The parts after removing the broken relationships of the parts named by `names` in
/// turn (each time the first part with that name; names that are not absolute are
/// skipped), and the reports.
pub open spec fn parts_repaired(parts: Seq<PartView>, names: Seq<Seq<char>>) -> (Seq<PartView>, Seq<IssueView>)
    decreases names.len(),
{
    if names.len() == 0 {
        (parts, Seq::empty())
    } else {
        let (ps, fixed) = parts_repaired(parts, names.drop_last());
        let name = names.last();
        if !is_absolute(name) {
            (ps, fixed)
        } else {
            match find_part(ps, name, 0) {
                Some(i) => {
                    let p = ps[i];
                    let (left, removed) = remove_all(p.rels.rels, broken_rids(p.rels.rels, base_uri_spec(name), parts));
                    (
                        ps.update(i, PartView { rels: RelsView { rels: left, base: p.rels.base }, ..p }),
                        fixed + removed.map_values(|r: RelView| part_fix(r, name)),
                    )
                },
                None => (ps, fixed),
            }
        }
    }
}

/// The ids of the slide relationships (of `rels`) that no entry of `l` lists.
pub open spec fn orphan_rids(rels: Seq<RelView>, l: Seq<crate::id_list::Entry>) -> Seq<Seq<char>>
    decreases rels.len(),
{
    if rels.len() == 0 {
        Seq::empty()
    } else {
        let r = rels.last();
        let prev = orphan_rids(rels.drop_last(), l);
        if r.rel_type == SLIDE@ && !rid_listed(l, r.r_id) { prev.push(r.r_id) } else { prev }
    }
}

/// The package after removing the orphan slide relationships of the presentation part,
/// and the reports; unchanged without a presentation part or with an unreadable slide list.
pub open spec fn orphans_repaired(pkg: PackageView) -> (PackageView, Seq<IssueView>) {
    match part_by_reltype_spec(pkg, OFFICE_DOCUMENT@) {
        Some(pi) => {
            let pp = pkg.parts[pi];
            match slide_entries(pp.blob) {
                Some(l) => {
                    let (left, removed) = remove_all(pp.rels.rels, orphan_rids(pp.rels.rels, l));
                    let k = find_part(pkg.parts, pp.partname, 0).unwrap();
                    (
                        PackageView {
                            parts: pkg.parts.update(k, PartView { rels: RelsView { rels: left, base: pp.rels.base }, ..pp }),
                            pkg_rels: pkg.pkg_rels,
                        },
                        removed.map_values(|r: RelView| orphan_fix(r, pp.partname)),
                    )
                },
                None => (pkg, Seq::empty()),
            }
        },
        None => (pkg, Seq::empty()),
    }
}

/// The package with an officeDocument relationship to `ppt/presentation.xml` added when
/// it has none and that part exists, and the report.
pub open spec fn office_rel_repaired(pkg: PackageView) -> (PackageView, Seq<IssueView>) {
    if find_type(pkg.pkg_rels.rels, OFFICE_DOCUMENT@, 0) is None && has_part(pkg.parts, "/ppt/presentation.xml"@) {
        (
            PackageView {
                parts: pkg.parts,
                pkg_rels: RelsView {
                    rels: pkg.pkg_rels.rels.push(RelView {
                        r_id: next_rid(pkg.pkg_rels.rels),
                        rel_type: OFFICE_DOCUMENT@,
                        target_ref: "ppt/presentation.xml"@,
                        is_external: false,
                    }),
                    base: pkg.pkg_rels.base,
                },
            },
            seq![issue(
                Severity::Critical,
                IssueCategory::BrokenRelationship,
                "Added missing officeDocument relationship to package"@,
                Some(pkg_rels_loc()),
            )],
        )
    } else {
        (pkg, Seq::empty())
    }
}

/// The part names, in order.
pub open spec fn names_of(parts: Seq<PartView>) -> Seq<Seq<char>> {
    parts.map_values(|p: PartView| p.partname)
}

/// The package without its broken relationships (package-level ones first, then each
/// part's), and the reports.
pub open spec fn broken_removed(pkg: PackageView) -> (PackageView, Seq<IssueView>) {
    let (p1, f1) = pkg_rels_repaired(pkg);
    let (parts2, f2) = parts_repaired(p1.parts, names_of(p1.parts));
    (PackageView { parts: parts2, pkg_rels: p1.pkg_rels }, f1 + f2)
}

/// The package after all repairs, and the reports, in the order the repairs run.
pub open spec fn repaired(pkg: PackageView) -> (PackageView, Seq<IssueView>) {
    let (p2, f12) = broken_removed(pkg);
    let (p3, f3) = orphans_repaired(p2);
    let (p4, f4) = office_rel_repaired(p3);
    (p4, f12 + f3 + f4)
}

/// Repairs presentations.
#[derive(Debug, Clone)]
pub struct PptxRepairer;

/// The views of a list of strings.
pub open spec fn strings_view(v: Seq<String>) -> Seq<Seq<char>> {
    v.map_values(|s: String| s@)
}

proof fn lemma_has_part_names(a: Seq<PartView>, b: Seq<PartView>, n: Seq<char>)
    requires
        a.len() == b.len(),
        forall|k: int| 0 <= k < a.len() ==> #[trigger] a[k].partname == b[k].partname,
    ensures
        has_part(a, n) == has_part(b, n),
{
    if has_part(a, n) {
        let k = choose|k: int| 0 <= k < a.len() && #[trigger] a[k].partname == n;
        assert(b[k].partname == n);
    }
    if has_part(b, n) {
        let k = choose|k: int| 0 <= k < b.len() && #[trigger] b[k].partname == n;
        assert(a[k].partname == n);
    }
}

fn has_part_exec(pkg: &OpcPackage, name: &str) -> (r: bool)
    ensures
        r == has_part(pkg@.parts, name@),
{
    proof { lemma_find_part_found(pkg@.parts, name@, 0); }
    pkg.part_index(name).is_some()
}

fn broken_rids_exec(rels: &Relationships, base: &str, pkg: &OpcPackage, orig: Ghost<Seq<PartView>>) -> (r: Vec<String>)
    requires
        pkg@.parts.len() == orig@.len(),
        forall|k: int| 0 <= k < orig@.len() ==> #[trigger] pkg@.parts[k].partname == orig@[k].partname,
    ensures
        strings_view(r@) == broken_rids(rels@.rels, base@, orig@),
{
    let v = rels.as_vec();
    let ghost rv = rels@.rels;
    let mut out: Vec<String> = Vec::new();
    let mut i: usize = 0;
    while i < v.len()
        invariant
            i <= v.len(),
            rel_views(v@) == rv,
            pkg@.parts.len() == orig@.len(),
            forall|k: int| 0 <= k < orig@.len() ==> #[trigger] pkg@.parts[k].partname == orig@[k].partname,
            strings_view(out@) == broken_rids(rv.take(i as int), base@, orig@),
        decreases v.len() - i,
    {
        assert(rv.take(i as int + 1).drop_last() =~= rv.take(i as int));
        assert(rv.take(i as int + 1).last() == v@[i as int]@);
        let rel = &v[i];
        if !rel.is_external {
            let pn = crate::opc::uri::resolve_target(base, rel.target_ref.as_str());
            proof { lemma_has_part_names(pkg@.parts, orig@, pn@); }
            if !has_part_exec(pkg, pn.as_str()) {
                let ghost before = out@;
                out.push(rel.r_id.clone());
                assert(strings_view(out@) =~= strings_view(before).push(rel.r_id@));
            }
        }
        i = i + 1;
    }
    assert(rv.take(i as int) =~= rv);
    out
}

fn remove_all_exec(rels: &mut Relationships, rids: &Vec<String>) -> (r: Vec<crate::opc::package::Relationship>)
    ensures
        final(rels)@.base == old(rels)@.base,
        (final(rels)@.rels, rel_views(r@)) == remove_all(old(rels)@.rels, strings_view(rids@)),
{
    let ghost rs = strings_view(rids@);
    let mut removed: Vec<crate::opc::package::Relationship> = Vec::new();
    let mut i: usize = 0;
    while i < rids.len()
        invariant
            i <= rids.len(),
            rs == strings_view(rids@),
            rels@.base == old(rels)@.base,
            (rels@.rels, rel_views(removed@)) == remove_all(old(rels)@.rels, rs.take(i as int)),
        decreases rids.len() - i,
    {
        assert(rs.take(i as int + 1).drop_last() =~= rs.take(i as int));
        assert(rs.take(i as int + 1).last() == rids@[i as int]@);
        let ghost before = removed@;
        match rels.remove(rids[i].as_str()) {
            Some(x) => {
                removed.push(x);
                assert(rel_views(removed@) =~= rel_views(before).push(x@));
            },
            None => {},
        }
        i = i + 1;
    }
    assert(rs.take(i as int) =~= rs);
    removed
}

fn pkg_fix_issue(r: &crate::opc::package::Relationship) -> (x: ValidationIssue)
    ensures
        x@ == pkg_fix(r@),
{
    let mut d = String::new();
    string_push_str(&mut d, "Removed broken package relationship ");
    string_push_str(&mut d, r.r_id.as_str());
    string_push_str(&mut d, " -> ");
    string_push_str(&mut d, r.target_ref.as_str());
    ValidationIssue { severity: Severity::High, category: IssueCategory::BrokenRelationship, description: d, location: Some("/_rels/.rels".to_owned()) }
}

fn part_fix_issue(r: &crate::opc::package::Relationship, name: &str) -> (x: ValidationIssue)
    ensures
        x@ == part_fix(r@, name@),
{
    let mut d = String::new();
    string_push_str(&mut d, "Removed broken relationship ");
    string_push_str(&mut d, r.r_id.as_str());
    string_push_str(&mut d, " -> ");
    string_push_str(&mut d, r.target_ref.as_str());
    string_push_str(&mut d, " from ");
    string_push_str(&mut d, name);
    ValidationIssue { severity: Severity::High, category: IssueCategory::BrokenRelationship, description: d, location: Some(name.to_owned()) }
}

fn orphan_fix_issue(r: &crate::opc::package::Relationship, name: &str) -> (x: ValidationIssue)
    ensures
        x@ == orphan_fix(r@, name@),
{
    let mut d = String::new();
    string_push_str(&mut d, "Removed orphan slide relationship ");
    string_push_str(&mut d, r.r_id.as_str());
    string_push_str(&mut d, " (target: ");
    string_push_str(&mut d, r.target_ref.as_str());
    string_push_str(&mut d, ")");
    ValidationIssue { severity: Severity::Medium, category: IssueCategory::OrphanSlide, description: d, location: Some(name.to_owned()) }
}

/// Reports for removed relationships, one each, made by `f`.
fn reports(removed: &Vec<crate::opc::package::Relationship>, kind: u8, name: &str) -> (r: Vec<ValidationIssue>)
    requires
        kind <= 2,
    ensures
        issues_view(r@) == rel_views(removed@).map_values(|x: RelView|
            if kind == 0 { pkg_fix(x) } else if kind == 1 { part_fix(x, name@) } else { orphan_fix(x, name@) }),
{
    let ghost f = |x: RelView| if kind == 0 { pkg_fix(x) } else if kind == 1 { part_fix(x, name@) } else { orphan_fix(x, name@) };
    let mut out: Vec<ValidationIssue> = Vec::new();
    let mut i: usize = 0;
    while i < removed.len()
        invariant
            i <= removed.len(),
            kind <= 2,
            f == (|x: RelView| if kind == 0 { pkg_fix(x) } else if kind == 1 { part_fix(x, name@) } else { orphan_fix(x, name@) }),
            issues_view(out@) == rel_views(removed@).take(i as int).map_values(f),
        decreases removed.len() - i,
    {
        let ghost before = out@;
        let x = if kind == 0 {
            pkg_fix_issue(&removed[i])
        } else if kind == 1 {
            part_fix_issue(&removed[i], name)
        } else {
            orphan_fix_issue(&removed[i], name)
        };
        out.push(x);
        assert(rel_views(removed@).take(i as int + 1) =~= rel_views(removed@).take(i as int).push(removed@[i as int]@));
        assert(issues_view(out@) =~= issues_view(before).push(x@));
        assert(rel_views(removed@).take(i as int + 1).map_values(f) =~= rel_views(removed@).take(i as int).map_values(f).push(f(removed@[i as int]@)));
        i = i + 1;
    }
    assert(rel_views(removed@).take(i as int) =~= rel_views(removed@));
    out
}

proof fn lemma_remove_all_len(rels: Seq<RelView>, rids: Seq<Seq<char>>)
    ensures
        remove_all(rels, rids).0.len() <= rels.len(),
    decreases rids.len(),
{
    if rids.len() > 0 {
        lemma_remove_all_len(rels, rids.drop_last());
        let r1 = remove_all(rels, rids.drop_last()).0;
        crate::opc::package::lemma_find_rid_found(r1, rids.last(), 0);
    }
}

fn fix_pkg_rels(pkg: &mut OpcPackage) -> (r: Vec<ValidationIssue>)
    ensures
        (final(pkg)@, issues_view(r@)) == pkg_rels_repaired(old(pkg)@),
{
    let ghost orig = pkg@.parts;
    let base = pkg.pkg_rels().base_uri().to_owned();
    let rids = broken_rids_exec(pkg.pkg_rels(), base.as_str(), pkg, Ghost(orig));
    let removed = remove_all_exec(pkg.pkg_rels_mut(), &rids);
    let out = reports(&removed, 0, "");
    assert(issues_view(out@) =~= rel_views(removed@).map_values(|r: RelView| pkg_fix(r)));
    out
}

/// Removes the relationships whose internal target is not a part: the package's, then
/// each part's (see `broken_removed`).
fn remove_broken_relationships(pkg: &mut OpcPackage) -> (r: Vec<ValidationIssue>)
    requires
        old(pkg)@.pkg_rels.rels.len() + 1 < usize::MAX,
    ensures
        (final(pkg)@, issues_view(r@)) == broken_removed(old(pkg)@),
{
    let ghost pkg0 = pkg@;
    let mut fixed = fix_pkg_rels(pkg);
    let f2 = fix_parts(pkg);
    append_issues(&mut fixed, f2);
    fixed
}

fn fix_parts(pkg: &mut OpcPackage) -> (r: Vec<ValidationIssue>)
    ensures
        final(pkg)@.pkg_rels == old(pkg)@.pkg_rels,
        (final(pkg)@.parts, issues_view(r@)) == parts_repaired(old(pkg)@.parts, names_of(old(pkg)@.parts)),
{
    let ghost orig = pkg@.parts;
    let mut names: Vec<String> = Vec::new();
    let mut j: usize = 0;
    while j < pkg.part_count()
        invariant
            j <= orig.len(),
            pkg@.parts == orig,
            strings_view(names@) == names_of(orig).take(j as int),
        decreases orig.len() - j,
    {
        let ghost before = names@;
        names.push(pkg.part_at(j).partname.to_string());
        assert(strings_view(names@) =~= strings_view(before).push(orig[j as int].partname));
        assert(names_of(orig).take(j as int + 1) =~= names_of(orig).take(j as int).push(orig[j as int].partname));
        j = j + 1;
    }
    assert(names_of(orig).take(j as int) =~= names_of(orig));
    let ghost nv = names_of(orig);
    let mut out: Vec<ValidationIssue> = Vec::new();
    let mut k: usize = 0;
    assert(issues_view(out@) =~= Seq::<IssueView>::empty());
    while k < names.len()
        invariant
            k <= names.len(),
            strings_view(names@) == nv,
            nv == names_of(orig),
            pkg@.pkg_rels == old(pkg)@.pkg_rels,
            orig == old(pkg)@.parts,
            pkg@.parts.len() == orig.len(),
            forall|m: int| 0 <= m < orig.len() ==> #[trigger] pkg@.parts[m].partname == orig[m].partname,
            (pkg@.parts, issues_view(out@)) == parts_repaired(orig, nv.take(k as int)),
        decreases names.len() - k,
    {
        assert(nv.take(k as int + 1).drop_last() =~= nv.take(k as int));
        assert(nv.take(k as int + 1).last() == names@[k as int]@);
        let name = names[k].as_str();
        if is_absolute_name(name) {
            match pkg.part_index(name) {
                Some(i) => {
                    proof { lemma_find_part_found(pkg@.parts, name@, 0); }
                    let base = crate::opc::uri::base_uri_of(name);
                    let rids = broken_rids_exec(&pkg.part_at(i).rels, base.as_str(), pkg, Ghost(orig));
                    let ghost p = pkg@.parts[i as int];
                    let mut rels = pkg.take_rels_at(i);
                    let removed = remove_all_exec(&mut rels, &rids);
                    pkg.set_rels_at(i, rels);
                    let more = reports(&removed, 1, name);
                    assert(issues_view(more@) =~= rel_views(removed@).map_values(|r: RelView| part_fix(r, name@)));
                    append_issues(&mut out, more);
                },
                None => {},
            }
        }
        k = k + 1;
    }
    assert(nv.take(k as int) =~= nv);
    out
}

fn is_absolute_name(name: &str) -> (r: bool)
    ensures
        r == is_absolute(name@),
{
    crate::opc::uri::PackURI::new(name).is_ok()
}

fn remove_orphan_slide_references(pkg: &mut OpcPackage) -> (r: Vec<ValidationIssue>)
    ensures
        (final(pkg)@, issues_view(r@)) == orphans_repaired(old(pkg)@),
{
    let ghost pkg0 = pkg@;
    let (name, rids) = {
        let pp = match pkg.part_by_reltype(OFFICE_DOCUMENT) {
            Ok(p) => p,
            Err(_) => {
                let v: Vec<ValidationIssue> = Vec::new();
                assert(issues_view(v@) =~= Seq::<IssueView>::empty());
                return v;
            },
        };
        let ids = match crate::slide::parse_slide_ids(pp.blob.as_slice()) {
            Ok(v) => v,
            Err(_) => {
                let v: Vec<ValidationIssue> = Vec::new();
                assert(issues_view(v@) =~= Seq::<IssueView>::empty());
                return v;
            },
        };
        let ghost l = entries_view(ids@);
        let v = pp.rels.as_vec();
        let ghost rv = pp@.rels.rels;
        let mut rids: Vec<String> = Vec::new();
        let mut i: usize = 0;
        while i < v.len()
            invariant
                i <= v.len(),
                rel_views(v@) == rv,
                l == entries_view(ids@),
                strings_view(rids@) == orphan_rids(rv.take(i as int), l),
            decreases v.len() - i,
        {
            assert(rv.take(i as int + 1).drop_last() =~= rv.take(i as int));
            assert(rv.take(i as int + 1).last() == v@[i as int]@);
            let rel = &v[i];
            if crate::enums::str_eq(rel.rel_type.as_str(), SLIDE) && !super::validator::rid_listed_exec(&ids, rel.r_id.as_str()) {
                let ghost before = rids@;
                rids.push(rel.r_id.clone());
                assert(strings_view(rids@) =~= strings_view(before).push(rel.r_id@));
            }
            i = i + 1;
        }
        assert(rv.take(i as int) =~= rv);
        let nm = pp.partname.to_string();
        proof { crate::presentation::lemma_pres_index(pkg0); }
        assert(part_by_reltype_spec(pkg0, OFFICE_DOCUMENT@) matches Some(pi) && pkg0.parts[pi] == pp@
            && find_part(pkg0.parts, nm@, 0) == Some(pi)
            && slide_entries(pp@.blob) == Some(l)
            && strings_view(rids@) == orphan_rids(pp@.rels.rels, l));
        (nm, rids)
    };
    let k = match pkg.part_index(name.as_str()) {
        Some(k) => k,
        None => {
            let v: Vec<ValidationIssue> = Vec::new();
            return v;
        },
    };
    proof { lemma_find_part_found(pkg@.parts, name@, 0); }
    let ghost pi = part_by_reltype_spec(pkg0, OFFICE_DOCUMENT@).unwrap();
    let ghost pp = pkg0.parts[pi];
    let ghost l = slide_entries(pp.blob).unwrap();
    assert(name@ == pp.partname);
    assert(k == pi);
    assert(strings_view(rids@) == orphan_rids(pp.rels.rels, l));
    let mut rels = pkg.take_rels_at(k);
    let removed = remove_all_exec(&mut rels, &rids);
    let ghost left = rels@.rels;
    pkg.set_rels_at(k, rels);
    assert(pkg@.parts =~= pkg0.parts.update(pi, PartView { rels: RelsView { rels: left, base: pp.rels.base }, ..pp }));
    let out = reports(&removed, 2, name.as_str());
    assert(issues_view(out@) =~= rel_views(removed@).map_values(|r: RelView| orphan_fix(r, name@)));
    out
}

fn add_missing_office_document_rel(pkg: &mut OpcPackage) -> (r: Vec<ValidationIssue>)
    requires
        old(pkg)@.pkg_rels.rels.len() < usize::MAX,
    ensures
        (final(pkg)@, issues_view(r@)) == office_rel_repaired(old(pkg)@),
{
    if pkg.pkg_rels().index_of_type(OFFICE_DOCUMENT).is_none() && has_part_exec(pkg, "/ppt/presentation.xml") {
        pkg.pkg_rels_mut().add_relationship(OFFICE_DOCUMENT, "ppt/presentation.xml", false);
        let mut v: Vec<ValidationIssue> = Vec::new();
        v.push(ValidationIssue {
            severity: Severity::Critical,
            category: IssueCategory::BrokenRelationship,
            description: "Added missing officeDocument relationship to package".to_owned(),
            location: Some("/_rels/.rels".to_owned()),
        });
        assert(issues_view(v@) =~= office_rel_repaired(old(pkg)@).1);
        v
    } else {
        let v: Vec<ValidationIssue> = Vec::new();
        assert(issues_view(v@) =~= Seq::<IssueView>::empty());
        v
    }
}

impl PptxRepairer {
    /// Repairs a presentation (see `repaired`) and reports the issues found before, the
    /// changes made, and whether validating afterwards finds no issue.
    pub fn repair(prs: &mut Presentation) -> (r: RepairReport)
        requires
            old(prs)@.pkg_rels.rels.len() + 1 < usize::MAX,
        ensures
            issues_view(r.issues_found@) == validation_issues(old(prs)@),
            final(prs)@ == repaired(old(prs)@).0,
            issues_view(r.issues_fixed@) == repaired(old(prs)@).1,
            r.is_valid == (validation_issues(final(prs)@).len() == 0),
    {
        let issues_found = PptxValidator::validate(prs);
        let ghost pkg0 = prs@;
        let mut fixed: Vec<ValidationIssue> = Vec::new();
        {
            let pkg = prs.package_mut();
            let f12 = remove_broken_relationships(pkg);
            proof { lemma_remove_all_len(pkg0.pkg_rels.rels, broken_rids(pkg0.pkg_rels.rels, pkg0.pkg_rels.base, pkg0.parts)); }
            append_issues(&mut fixed, f12);
            let f3 = remove_orphan_slide_references(pkg);
            append_issues(&mut fixed, f3);
            let f4 = add_missing_office_document_rel(pkg);
            append_issues(&mut fixed, f4);
        }
        let remaining = PptxValidator::validate(prs);
        RepairReport { issues_found, issues_fixed: fixed, is_valid: remaining.len() == 0 }
    }
}

proof fn lemma_clean_pkg_targets(pkg: PackageView, rels: Seq<RelView>)
    requires
        super::validator::pkg_target_issues(pkg, rels).len() == 0,
    ensures
        broken_rids(rels, pkg.pkg_rels.base, pkg.parts).len() == 0,
    decreases rels.len(),
{
    if rels.len() > 0 {
        lemma_clean_pkg_targets(pkg, rels.drop_last());
    }
}

proof fn lemma_clean_part_targets(pkg: PackageView, p: PartView, rels: Seq<RelView>)
    requires
        super::validator::part_target_issues(pkg, p, rels).len() == 0,
    ensures
        broken_rids(rels, base_uri_spec(p.partname), pkg.parts).len() == 0,
    decreases rels.len(),
{
    if rels.len() > 0 {
        lemma_clean_part_targets(pkg, p, rels.drop_last());
    }
}

proof fn lemma_clean_parts_targets(pkg: PackageView, ps: Seq<PartView>)
    requires
        super::validator::parts_target_issues(pkg, ps).len() == 0,
    ensures
        forall|k: int| 0 <= k < ps.len() ==> #[trigger] broken_rids(ps[k].rels.rels, base_uri_spec(ps[k].partname), pkg.parts).len() == 0,
    decreases ps.len(),
{
    if ps.len() > 0 {
        lemma_clean_parts_targets(pkg, ps.drop_last());
        lemma_clean_part_targets(pkg, ps.last(), ps.last().rels.rels);
        assert forall|k: int| 0 <= k < ps.len() implies #[trigger] broken_rids(ps[k].rels.rels, base_uri_spec(ps[k].partname), pkg.parts).len() == 0 by {
            if k < ps.len() - 1 {
                assert(ps.drop_last()[k] == ps[k]);
            }
        }
    }
}

proof fn lemma_parts_repaired_clean(parts: Seq<PartView>, names: Seq<Seq<char>>)
    requires
        forall|k: int| 0 <= k < parts.len() ==> #[trigger] broken_rids(parts[k].rels.rels, base_uri_spec(parts[k].partname), parts).len() == 0,
    ensures
        parts_repaired(parts, names) == (parts, Seq::<IssueView>::empty()),
    decreases names.len(),
{
    if names.len() > 0 {
        lemma_parts_repaired_clean(parts, names.drop_last());
        let name = names.last();
        if is_absolute(name) {
            lemma_find_part_found(parts, name, 0);
            if let Some(i) = find_part(parts, name, 0) {
                let p = parts[i];
                assert(broken_rids(p.rels.rels, base_uri_spec(name), parts).len() == 0);
                assert(broken_rids(p.rels.rels, base_uri_spec(name), parts) =~= Seq::<Seq<char>>::empty());
                let e = Seq::<Seq<char>>::empty();
                assert(remove_all(p.rels.rels, e) == (p.rels.rels, Seq::<RelView>::empty()));
                assert(PartView { rels: RelsView { rels: p.rels.rels, base: p.rels.base }, ..p } == p);
                assert(parts.update(i, p) =~= parts);
                assert(Seq::<IssueView>::empty() + Seq::<RelView>::empty().map_values(|r: RelView| part_fix(r, name)) =~= Seq::<IssueView>::empty());
            }
        }
    }
}

proof fn lemma_orphans_clean(pp: PartView, l: Seq<crate::id_list::Entry>, rels: Seq<RelView>)
    requires
        super::validator::orphan_issues(pp, l, rels).len() == 0,
    ensures
        orphan_rids(rels, l).len() == 0,
    decreases rels.len(),
{
    if rels.len() > 0 {
        lemma_orphans_clean(pp, l, rels.drop_last());
    }
}

/// Repairing a presentation without issues changes nothing and reports no change.
pub proof fn lemma_repair_clean_is_noop(pkg: PackageView)
    requires
        validation_issues(pkg).len() == 0,
    ensures
        repaired(pkg) == (pkg, Seq::<IssueView>::empty()),
{
    assert(pkg_rel_issues(pkg).len() == 0);
    assert(pkg_target_issues(pkg, pkg.pkg_rels.rels).len() == 0);
    assert(parts_target_issues(pkg, pkg.parts).len() == 0);
    assert(slide_ref_issues(pkg).len() == 0);
    // package relationships
    lemma_clean_pkg_targets(pkg, pkg.pkg_rels.rels);
    let e = Seq::<Seq<char>>::empty();
    assert(broken_rids(pkg.pkg_rels.rels, pkg.pkg_rels.base, pkg.parts) =~= e);
    let (p1, f1) = pkg_rels_repaired(pkg);
    assert(p1 == pkg);
    assert(f1 =~= Seq::<IssueView>::empty());
    // part relationships
    lemma_clean_parts_targets(pkg, pkg.parts);
    lemma_parts_repaired_clean(pkg.parts, names_of(pkg.parts));
    // orphans
    let p2 = PackageView { parts: pkg.parts, pkg_rels: pkg.pkg_rels };
    assert(p2 == pkg);
    match part_by_reltype_spec(pkg, OFFICE_DOCUMENT@) {
        Some(pi) => {
            crate::presentation::lemma_pres_index(pkg);
            let pp = pkg.parts[pi];
            let l = slide_entries(pp.blob).unwrap();
            assert(entry_issues(pkg, pp, l).len() + orphan_issues(pp, l, pp.rels.rels).len() == 0);
            lemma_orphans_clean(pp, l, pp.rels.rels);
            assert(orphan_rids(pp.rels.rels, l) =~= e);
            assert(PartView { rels: RelsView { rels: pp.rels.rels, base: pp.rels.base }, ..pp } == pp);
            assert(pkg.parts.update(pi, pp) =~= pkg.parts);
            let (p3, f3) = orphans_repaired(pkg);
            assert(p3 == pkg);
            assert(f3 =~= Seq::<IssueView>::empty());
        },
        None => {},
    }
    assert(find_type(pkg.pkg_rels.rels, OFFICE_DOCUMENT@, 0) is Some);
    let (p4, f) = repaired(pkg);
    assert(f =~= Seq::<IssueView>::empty());
}

} // verus!
