//! Validation: finding structural issues in a presentation's package.
use vstd::prelude::*;
use crate::id_list::{Entry, entries_view};
use crate::opc::package::{OpcPackage, PackageView, PartView, RelView, Relationship, find_rid, has_part, part_by_reltype_spec, find_type, rel_views, part_views, lemma_find_part_found};
use crate::opc::relationship_type::{OFFICE_DOCUMENT, SLIDE};
use crate::opc::uri::{resolve, base_uri_spec};
use crate::presentation::Presentation;
use crate::scan::find_from;
use crate::slide::slide_entries;
use crate::text::string_push_str;
use crate::xml::well_formed;
use super::{IssueCategory, IssueView, Severity, ValidationIssue, issue, issues_view, append_issues};

verus! {

/// `/_rels/.rels`
pub open spec fn pkg_rels_loc() -> Seq<char> {
    "/_rels/.rels"@
}

/// The issue when there is no presentation part.
pub open spec fn presence_issues(pkg: PackageView) -> Seq<IssueView> {
    if part_by_reltype_spec(pkg, OFFICE_DOCUMENT@) is None {
        seq![issue(Severity::Critical, IssueCategory::MissingPart, "Missing presentation part (ppt/presentation.xml)"@, Some("/ppt/presentation.xml"@))]
    } else {
        Seq::empty()
    }
}

/// The issues of the package relationships: none at all, or none of type officeDocument.
pub open spec fn pkg_rel_issues(pkg: PackageView) -> Seq<IssueView> {
    if pkg.pkg_rels.rels.len() == 0 {
        seq![issue(Severity::Critical, IssueCategory::BrokenRelationship, "Package relationships (_rels/.rels) are empty"@, Some(pkg_rels_loc()))]
    } else if find_type(pkg.pkg_rels.rels, OFFICE_DOCUMENT@, 0) is None {
        seq![issue(Severity::Critical, IssueCategory::BrokenRelationship, "Package relationships missing officeDocument relationship"@, Some(pkg_rels_loc()))]
    } else {
        Seq::empty()
    }
}

/// Package relationships (of `rels`) whose internal target is not a part.
pub open spec fn pkg_target_issues(pkg: PackageView, rels: Seq<RelView>) -> Seq<IssueView>
    decreases rels.len(),
{
    if rels.len() == 0 {
        Seq::empty()
    } else {
        let r = rels.last();
        let pn = resolve(pkg.pkg_rels.base, r.target_ref);
        pkg_target_issues(pkg, rels.drop_last()) + if !r.is_external && !has_part(pkg.parts, pn) {
            seq![issue(
                Severity::High,
                IssueCategory::BrokenRelationship,
                "Package relationship "@ + r.r_id + " targets missing part "@ + pn,
                Some(pkg_rels_loc()),
            )]
        } else {
            Seq::empty()
        }
    }
}

/// Relationships (of `rels`) of part `p` whose internal target is not a part.
pub open spec fn part_target_issues(pkg: PackageView, p: PartView, rels: Seq<RelView>) -> Seq<IssueView>
    decreases rels.len(),
{
    if rels.len() == 0 {
        Seq::empty()
    } else {
        let r = rels.last();
        let pn = resolve(base_uri_spec(p.partname), r.target_ref);
        part_target_issues(pkg, p, rels.drop_last()) + if !r.is_external && !has_part(pkg.parts, pn) {
            seq![issue(
                Severity::High,
                IssueCategory::BrokenRelationship,
                "Relationship "@ + r.r_id + " in "@ + p.partname + " targets missing part "@ + pn,
                Some(p.partname),
            )]
        } else {
            Seq::empty()
        }
    }
}

/// The broken relationships of each of the parts `ps`.
pub open spec fn parts_target_issues(pkg: PackageView, ps: Seq<PartView>) -> Seq<IssueView>
    decreases ps.len(),
{
    if ps.len() == 0 {
        Seq::empty()
    } else {
        parts_target_issues(pkg, ps.drop_last()) + part_target_issues(pkg, ps.last(), ps.last().rels.rels)
    }
}

/// Whether `pat` occurs in `s`.
pub open spec fn contains(s: Seq<char>, pat: Seq<char>) -> bool {
    find_from(s, pat, 0) is Some
}

/// Parts with an XML content type whose bytes are not well-formed XML.
pub open spec fn xml_issues(ps: Seq<PartView>) -> Seq<IssueView>
    decreases ps.len(),
{
    if ps.len() == 0 {
        Seq::empty()
    } else {
        let p = ps.last();
        xml_issues(ps.drop_last()) + if contains(p.content_type, "xml"@) && !well_formed(p.blob) {
            seq![issue(Severity::High, IssueCategory::InvalidXml, "Malformed XML in part "@ + p.partname, Some(p.partname))]
        } else {
            Seq::empty()
        }
    }
}

/// Slide entries (of `l`) without a relationship, or whose internal target is not a part.
pub open spec fn entry_issues(pkg: PackageView, pp: PartView, l: Seq<Entry>) -> Seq<IssueView>
    decreases l.len(),
{
    if l.len() == 0 {
        Seq::empty()
    } else {
        let rid = l.last().0;
        entry_issues(pkg, pp, l.drop_last()) + match find_rid(pp.rels.rels, rid, 0) {
            Some(j) => {
                let pn = resolve(base_uri_spec(pp.partname), pp.rels.rels[j].target_ref);
                if !pp.rels.rels[j].is_external && !has_part(pkg.parts, pn) {
                    seq![issue(
                        Severity::High,
                        IssueCategory::MissingSlideRef,
                        "Slide referenced in sldIdLst ("@ + rid + ") points to missing part "@ + pn,
                        Some(pp.partname),
                    )]
                } else {
                    Seq::empty()
                }
            },
            None => seq![issue(
                Severity::High,
                IssueCategory::MissingSlideRef,
                "Slide referenced in sldIdLst with rId "@ + rid + " has no matching relationship"@,
                Some(pp.partname),
            )],
        }
    }
}

/// Whether some entry has relationship id `rid`.
pub open spec fn rid_listed(l: Seq<Entry>, rid: Seq<char>) -> bool {
    exists|k: int| 0 <= k < l.len() && #[trigger] l[k].0 == rid
}

/// Slide relationships (of `rels`) that no slide entry references.
pub open spec fn orphan_issues(pp: PartView, l: Seq<Entry>, rels: Seq<RelView>) -> Seq<IssueView>
    decreases rels.len(),
{
    if rels.len() == 0 {
        Seq::empty()
    } else {
        let r = rels.last();
        orphan_issues(pp, l, rels.drop_last()) + if r.rel_type == SLIDE@ && !rid_listed(l, r.r_id) {
            seq![issue(
                Severity::Medium,
                IssueCategory::OrphanSlide,
                "Slide relationship "@ + r.r_id + " (target: "@ + r.target_ref + ") not referenced in sldIdLst"@,
                Some(pp.partname),
            )]
        } else {
            Seq::empty()
        }
    }
}

/// The slide reference issues of the presentation part.
pub open spec fn slide_ref_issues(pkg: PackageView) -> Seq<IssueView> {
    match part_by_reltype_spec(pkg, OFFICE_DOCUMENT@) {
        None => Seq::empty(),
        Some(pi) => {
            let pp = pkg.parts[pi];
            match slide_entries(pp.blob) {
                None => seq![issue(
                    Severity::High,
                    IssueCategory::InvalidXml,
                    "Failed to parse sldIdLst from presentation.xml"@,
                    Some(pp.partname),
                )],
                Some(l) => entry_issues(pkg, pp, l) + orphan_issues(pp, l, pp.rels.rels),
            }
        },
    }
}

/// Parts with an empty content type.
pub open spec fn content_type_issues(ps: Seq<PartView>) -> Seq<IssueView>
    decreases ps.len(),
{
    if ps.len() == 0 {
        Seq::empty()
    } else {
        let p = ps.last();
        content_type_issues(ps.drop_last()) + if p.content_type.len() == 0 {
            seq![issue(Severity::Medium, IssueCategory::InvalidContentType, "Part "@ + p.partname + " has an empty content type"@, Some(p.partname))]
        } else {
            Seq::empty()
        }
    }
}

/// All issues of a package, in the order the checks run.
pub open spec fn validation_issues(pkg: PackageView) -> Seq<IssueView> {
    presence_issues(pkg) + pkg_rel_issues(pkg) + pkg_target_issues(pkg, pkg.pkg_rels.rels) + parts_target_issues(pkg, pkg.parts)
        + xml_issues(pkg.parts) + slide_ref_issues(pkg) + content_type_issues(pkg.parts)
}

proof fn lemma_entry_issue_listed(pkg: PackageView, pp: PartView, l: Seq<Entry>, k: int, j: int)
    requires
        0 <= k < l.len(),
        find_rid(pp.rels.rels, l[k].0, 0) == Some(j),
        !pp.rels.rels[j].is_external,
        !has_part(pkg.parts, resolve(base_uri_spec(pp.partname), pp.rels.rels[j].target_ref)),
    ensures
        exists|m: int| 0 <= m < entry_issues(pkg, pp, l).len() && #[trigger] entry_issues(pkg, pp, l)[m] == issue(
            Severity::High,
            IssueCategory::MissingSlideRef,
            "Slide referenced in sldIdLst ("@ + l[k].0 + ") points to missing part "@
                + resolve(base_uri_spec(pp.partname), pp.rels.rels[j].target_ref),
            Some(pp.partname),
        ),
    decreases l.len(),
{
    let x = issue(
        Severity::High,
        IssueCategory::MissingSlideRef,
        "Slide referenced in sldIdLst ("@ + l[k].0 + ") points to missing part "@
            + resolve(base_uri_spec(pp.partname), pp.rels.rels[j].target_ref),
        Some(pp.partname),
    );
    let prev = entry_issues(pkg, pp, l.drop_last());
    if k == l.len() - 1 {
        assert(entry_issues(pkg, pp, l)[prev.len() as int] == x);
    } else {
        assert(l.drop_last()[k] == l[k]);
        lemma_entry_issue_listed(pkg, pp, l.drop_last(), k, j);
        let m = choose|m: int| 0 <= m < prev.len() && #[trigger] prev[m] == x;
        assert(entry_issues(pkg, pp, l)[m] == x);
    }
}

/// Every slide listed in the presentation's `sldIdLst` whose relationship (its first one
/// with the listed id) is internal and resolves to a name that no part has is reported:
/// validation lists a High `MissingSlideRef` issue, located at the presentation part, that
/// names the relationship id and the missing part.
pub proof fn lemma_missing_slide_reported(pkg: PackageView, pi: int, k: int, j: int)
    requires
        part_by_reltype_spec(pkg, OFFICE_DOCUMENT@) == Some(pi),
        slide_entries(pkg.parts[pi].blob) matches Some(l) && 0 <= k < l.len(),
        find_rid(pkg.parts[pi].rels.rels, slide_entries(pkg.parts[pi].blob).unwrap()[k].0, 0) == Some(j),
        !pkg.parts[pi].rels.rels[j].is_external,
        !has_part(pkg.parts, resolve(base_uri_spec(pkg.parts[pi].partname), pkg.parts[pi].rels.rels[j].target_ref)),
    ensures
        exists|m: int| 0 <= m < validation_issues(pkg).len() && #[trigger] validation_issues(pkg)[m] == (IssueView {
            severity: Severity::High,
            category: IssueCategory::MissingSlideRef,
            description: "Slide referenced in sldIdLst ("@ + slide_entries(pkg.parts[pi].blob).unwrap()[k].0
                + ") points to missing part "@
                + resolve(base_uri_spec(pkg.parts[pi].partname), pkg.parts[pi].rels.rels[j].target_ref),
            location: Some(pkg.parts[pi].partname),
        }),
{
    let pp = pkg.parts[pi];
    let l = slide_entries(pp.blob).unwrap();
    lemma_entry_issue_listed(pkg, pp, l, k, j);
    let e = entry_issues(pkg, pp, l);
    let x = issue(
        Severity::High,
        IssueCategory::MissingSlideRef,
        "Slide referenced in sldIdLst ("@ + l[k].0 + ") points to missing part "@
            + resolve(base_uri_spec(pp.partname), pp.rels.rels[j].target_ref),
        Some(pp.partname),
    );
    let m = choose|m: int| 0 <= m < e.len() && #[trigger] e[m] == x;
    let a = presence_issues(pkg) + pkg_rel_issues(pkg) + pkg_target_issues(pkg, pkg.pkg_rels.rels)
        + parts_target_issues(pkg, pkg.parts) + xml_issues(pkg.parts);
    let f = slide_ref_issues(pkg);
    assert(f == e + orphan_issues(pp, l, pp.rels.rels));
    assert(f[m] == x);
    assert(validation_issues(pkg) == a + f + content_type_issues(pkg.parts));
    assert(validation_issues(pkg)[a.len() + m] == x);
}

/// Whether `x` is one of the issues `s`.
pub open spec fn listed(s: Seq<IssueView>, x: IssueView) -> bool {
    exists|m: int| 0 <= m < s.len() && #[trigger] s[m] == x
}

proof fn lemma_listed_concat(a: Seq<IssueView>, s: Seq<IssueView>, b: Seq<IssueView>, x: IssueView)
    requires
        listed(s, x),
    ensures
        listed(a + s + b, x),
        listed(a + s, x),
        listed(s + b, x),
{
    let m = choose|m: int| 0 <= m < s.len() && #[trigger] s[m] == x;
    assert((a + s + b)[a.len() + m] == x);
    assert((a + s)[a.len() + m] == x);
    assert((s + b)[m] == x);
}

proof fn lemma_rel_issue_listed(pkg: PackageView, p: PartView, rels: Seq<RelView>, j: int)
    requires
        0 <= j < rels.len(),
        !rels[j].is_external,
        !has_part(pkg.parts, resolve(base_uri_spec(p.partname), rels[j].target_ref)),
    ensures
        listed(part_target_issues(pkg, p, rels), issue(
            Severity::High,
            IssueCategory::BrokenRelationship,
            "Relationship "@ + rels[j].r_id + " in "@ + p.partname + " targets missing part "@
                + resolve(base_uri_spec(p.partname), rels[j].target_ref),
            Some(p.partname),
        )),
    decreases rels.len(),
{
    let x = issue(
        Severity::High,
        IssueCategory::BrokenRelationship,
        "Relationship "@ + rels[j].r_id + " in "@ + p.partname + " targets missing part "@
            + resolve(base_uri_spec(p.partname), rels[j].target_ref),
        Some(p.partname),
    );
    let prev = part_target_issues(pkg, p, rels.drop_last());
    if j == rels.len() - 1 {
        assert(part_target_issues(pkg, p, rels)[prev.len() as int] == x);
    } else {
        assert(rels.drop_last()[j] == rels[j]);
        lemma_rel_issue_listed(pkg, p, rels.drop_last(), j);
        lemma_listed_concat(Seq::empty(), prev, part_target_issues(pkg, p, rels).subrange(prev.len() as int, part_target_issues(pkg, p, rels).len() as int), x);
        assert(Seq::<IssueView>::empty() + prev + part_target_issues(pkg, p, rels).subrange(prev.len() as int, part_target_issues(pkg, p, rels).len() as int) =~= part_target_issues(pkg, p, rels));
    }
}

proof fn lemma_part_issue_listed(pkg: PackageView, ps: Seq<PartView>, q: int, j: int)
    requires
        0 <= q < ps.len(),
        0 <= j < ps[q].rels.rels.len(),
        !ps[q].rels.rels[j].is_external,
        !has_part(pkg.parts, resolve(base_uri_spec(ps[q].partname), ps[q].rels.rels[j].target_ref)),
    ensures
        listed(parts_target_issues(pkg, ps), issue(
            Severity::High,
            IssueCategory::BrokenRelationship,
            "Relationship "@ + ps[q].rels.rels[j].r_id + " in "@ + ps[q].partname + " targets missing part "@
                + resolve(base_uri_spec(ps[q].partname), ps[q].rels.rels[j].target_ref),
            Some(ps[q].partname),
        )),
    decreases ps.len(),
{
    let x = issue(
        Severity::High,
        IssueCategory::BrokenRelationship,
        "Relationship "@ + ps[q].rels.rels[j].r_id + " in "@ + ps[q].partname + " targets missing part "@
            + resolve(base_uri_spec(ps[q].partname), ps[q].rels.rels[j].target_ref),
        Some(ps[q].partname),
    );
    let prev = parts_target_issues(pkg, ps.drop_last());
    let last = part_target_issues(pkg, ps.last(), ps.last().rels.rels);
    if q == ps.len() - 1 {
        lemma_rel_issue_listed(pkg, ps.last(), ps.last().rels.rels, j);
        lemma_listed_concat(prev, last, Seq::empty(), x);
    } else {
        assert(ps.drop_last()[q] == ps[q]);
        lemma_part_issue_listed(pkg, ps.drop_last(), q, j);
        lemma_listed_concat(Seq::empty(), prev, last, x);
        assert(Seq::<IssueView>::empty() + prev + last =~= prev + last);
    }
}

/// Every internal relationship of a part whose target resolves to a name that no part has
/// is reported: validation lists a High `BrokenRelationship` issue, located at that part,
/// naming the relationship, the part and the missing target.
pub proof fn lemma_broken_relationship_reported(pkg: PackageView, q: int, j: int)
    requires
        0 <= q < pkg.parts.len(),
        0 <= j < pkg.parts[q].rels.rels.len(),
        !pkg.parts[q].rels.rels[j].is_external,
        !has_part(pkg.parts, resolve(base_uri_spec(pkg.parts[q].partname), pkg.parts[q].rels.rels[j].target_ref)),
    ensures
        listed(validation_issues(pkg), IssueView {
            severity: Severity::High,
            category: IssueCategory::BrokenRelationship,
            description: "Relationship "@ + pkg.parts[q].rels.rels[j].r_id + " in "@ + pkg.parts[q].partname
                + " targets missing part "@
                + resolve(base_uri_spec(pkg.parts[q].partname), pkg.parts[q].rels.rels[j].target_ref),
            location: Some(pkg.parts[q].partname),
        }),
{
    lemma_part_issue_listed(pkg, pkg.parts, q, j);
    let a = presence_issues(pkg) + pkg_rel_issues(pkg) + pkg_target_issues(pkg, pkg.pkg_rels.rels);
    let b = xml_issues(pkg.parts) + slide_ref_issues(pkg) + content_type_issues(pkg.parts);
    let t = parts_target_issues(pkg, pkg.parts);
    lemma_listed_concat(a, t, b, issue(
        Severity::High,
        IssueCategory::BrokenRelationship,
        "Relationship "@ + pkg.parts[q].rels.rels[j].r_id + " in "@ + pkg.parts[q].partname
            + " targets missing part "@
            + resolve(base_uri_spec(pkg.parts[q].partname), pkg.parts[q].rels.rels[j].target_ref),
        Some(pkg.parts[q].partname),
    ));
    assert(validation_issues(pkg) =~= a + t + b);
}

/// Every slide relationship of the presentation part that no `sldIdLst` entry lists is
/// reported as an orphan: validation lists a Medium `OrphanSlide` issue at the presentation
/// part naming the relationship and its target.
pub proof fn lemma_orphan_slide_reported(pkg: PackageView, pi: int, j: int)
    requires
        part_by_reltype_spec(pkg, OFFICE_DOCUMENT@) == Some(pi),
        slide_entries(pkg.parts[pi].blob) is Some,
        0 <= j < pkg.parts[pi].rels.rels.len(),
        pkg.parts[pi].rels.rels[j].rel_type == SLIDE@,
        forall|k: int| 0 <= k < slide_entries(pkg.parts[pi].blob).unwrap().len()
            ==> #[trigger] slide_entries(pkg.parts[pi].blob).unwrap()[k].0 != pkg.parts[pi].rels.rels[j].r_id,
    ensures
        listed(validation_issues(pkg), IssueView {
            severity: Severity::Medium,
            category: IssueCategory::OrphanSlide,
            description: "Slide relationship "@ + pkg.parts[pi].rels.rels[j].r_id + " (target: "@
                + pkg.parts[pi].rels.rels[j].target_ref + ") not referenced in sldIdLst"@,
            location: Some(pkg.parts[pi].partname),
        }),
{
    let pp = pkg.parts[pi];
    let l = slide_entries(pp.blob).unwrap();
    let x = issue(
        Severity::Medium,
        IssueCategory::OrphanSlide,
        "Slide relationship "@ + pp.rels.rels[j].r_id + " (target: "@ + pp.rels.rels[j].target_ref + ") not referenced in sldIdLst"@,
        Some(pp.partname),
    );
    lemma_orphan_listed(pp, l, pp.rels.rels, j);
    let e = entry_issues(pkg, pp, l);
    lemma_listed_concat(e, orphan_issues(pp, l, pp.rels.rels), Seq::empty(), x);
    assert(e + orphan_issues(pp, l, pp.rels.rels) + Seq::<IssueView>::empty() =~= slide_ref_issues(pkg));
    let a = presence_issues(pkg) + pkg_rel_issues(pkg) + pkg_target_issues(pkg, pkg.pkg_rels.rels)
        + parts_target_issues(pkg, pkg.parts) + xml_issues(pkg.parts);
    lemma_listed_concat(a, slide_ref_issues(pkg), content_type_issues(pkg.parts), x);
}

proof fn lemma_orphan_listed(pp: PartView, l: Seq<Entry>, rels: Seq<RelView>, j: int)
    requires
        0 <= j < rels.len(),
        rels[j].rel_type == SLIDE@,
        forall|k: int| 0 <= k < l.len() ==> #[trigger] l[k].0 != rels[j].r_id,
    ensures
        listed(orphan_issues(pp, l, rels), issue(
            Severity::Medium,
            IssueCategory::OrphanSlide,
            "Slide relationship "@ + rels[j].r_id + " (target: "@ + rels[j].target_ref + ") not referenced in sldIdLst"@,
            Some(pp.partname),
        )),
    decreases rels.len(),
{
    let x = issue(
        Severity::Medium,
        IssueCategory::OrphanSlide,
        "Slide relationship "@ + rels[j].r_id + " (target: "@ + rels[j].target_ref + ") not referenced in sldIdLst"@,
        Some(pp.partname),
    );
    let prev = orphan_issues(pp, l, rels.drop_last());
    let tail = if rels.last().rel_type == SLIDE@ && !rid_listed(l, rels.last().r_id) {
        seq![issue(
            Severity::Medium,
            IssueCategory::OrphanSlide,
            "Slide relationship "@ + rels.last().r_id + " (target: "@ + rels.last().target_ref + ") not referenced in sldIdLst"@,
            Some(pp.partname),
        )]
    } else {
        Seq::empty()
    };
    assert(orphan_issues(pp, l, rels) == prev + tail);
    if j == rels.len() - 1 {
        assert(!rid_listed(l, rels[j].r_id));
        assert(tail[0] == x);
        assert(listed(tail, x));
        lemma_listed_concat(prev, tail, Seq::empty(), x);
        assert(prev + tail + Seq::<IssueView>::empty() =~= prev + tail);
    } else {
        assert(rels.drop_last()[j] == rels[j]);
        lemma_orphan_listed(pp, l, rels.drop_last(), j);
        lemma_listed_concat(Seq::empty(), prev, tail, x);
        assert(Seq::<IssueView>::empty() + prev + tail =~= prev + tail);
    }
}

/// Validates presentations.
#[derive(Debug, Clone)]
pub struct PptxValidator;

fn one(severity: Severity, category: IssueCategory, description: String, location: String) -> (r: Vec<ValidationIssue>)
    ensures
        issues_view(r@) == seq![issue(severity, category, description@, Some(location@))],
{
    let mut v: Vec<ValidationIssue> = Vec::new();
    v.push(ValidationIssue { severity, category, description, location: Some(location) });
    assert(issues_view(v@) =~= seq![issue(severity, category, description@, Some(location@))]);
    v
}

fn has_part_exec(pkg: &OpcPackage, name: &str) -> (r: bool)
    ensures
        r == has_part(pkg@.parts, name@),
{
    proof { lemma_find_part_found(pkg@.parts, name@, 0); }
    pkg.part_index(name).is_some()
}

fn check_presentation_part_exists(pkg: &OpcPackage) -> (r: Vec<ValidationIssue>)
    ensures
        issues_view(r@) == presence_issues(pkg@),
{
    match pkg.part_by_reltype(OFFICE_DOCUMENT) {
        Ok(_) => {
            let v: Vec<ValidationIssue> = Vec::new();
            assert(issues_view(v@) =~= Seq::<IssueView>::empty());
            v
        },
        Err(_) => one(
            Severity::Critical,
            IssueCategory::MissingPart,
            "Missing presentation part (ppt/presentation.xml)".to_owned(),
            "/ppt/presentation.xml".to_owned(),
        ),
    }
}

fn check_package_rels(pkg: &OpcPackage) -> (r: Vec<ValidationIssue>)
    ensures
        issues_view(r@) == pkg_rel_issues(pkg@),
{
    let rels = pkg.pkg_rels();
    if rels.is_empty() {
        return one(
            Severity::Critical,
            IssueCategory::BrokenRelationship,
            "Package relationships (_rels/.rels) are empty".to_owned(),
            "/_rels/.rels".to_owned(),
        );
    }
    match rels.index_of_type(OFFICE_DOCUMENT) {
        Some(_) => {
            let v: Vec<ValidationIssue> = Vec::new();
            assert(issues_view(v@) =~= Seq::<IssueView>::empty());
            v
        },
        None => one(
            Severity::Critical,
            IssueCategory::BrokenRelationship,
            "Package relationships missing officeDocument relationship".to_owned(),
            "/_rels/.rels".to_owned(),
        ),
    }
}

fn check_pkg_targets(pkg: &OpcPackage) -> (r: Vec<ValidationIssue>)
    ensures
        issues_view(r@) == pkg_target_issues(pkg@, pkg@.pkg_rels.rels),
{
    let rels = pkg.pkg_rels().as_vec();
    let base = pkg.pkg_rels().base_uri();
    let ghost rv = pkg@.pkg_rels.rels;
    let mut out: Vec<ValidationIssue> = Vec::new();
    let mut i: usize = 0;
    assert(issues_view(out@) =~= pkg_target_issues(pkg@, rv.take(0)));
    while i < rels.len()
        invariant
            i <= rels.len(),
            rel_views(rels@) == rv,
            rv == pkg@.pkg_rels.rels,
            base@ == pkg@.pkg_rels.base,
            issues_view(out@) == pkg_target_issues(pkg@, rv.take(i as int)),
        decreases rels.len() - i,
    {
        assert(rv.take(i as int + 1).drop_last() =~= rv.take(i as int));
        assert(rv.take(i as int + 1).last() == rels@[i as int]@);
        let rel = &rels[i];
        if !rel.is_external {
            let pn = crate::opc::uri::resolve_target(base, rel.target_ref.as_str());
            if !has_part_exec(pkg, pn.as_str()) {
                let mut d = String::new();
                string_push_str(&mut d, "Package relationship ");
                string_push_str(&mut d, rel.r_id.as_str());
                string_push_str(&mut d, " targets missing part ");
                string_push_str(&mut d, pn.as_str());
                let ghost before = out@;
                let x = one(Severity::High, IssueCategory::BrokenRelationship, d, "/_rels/.rels".to_owned());
                append_issues(&mut out, x);
            } else {
                assert(issues_view(out@) =~= issues_view(out@) + Seq::<IssueView>::empty());
            }
        } else {
            assert(issues_view(out@) =~= issues_view(out@) + Seq::<IssueView>::empty());
        }
        i = i + 1;
    }
    assert(rv.take(i as int) =~= rv);
    out
}

fn check_part_targets(pkg: &OpcPackage, part: &crate::opc::package::Part) -> (r: Vec<ValidationIssue>)
    ensures
        issues_view(r@) == part_target_issues(pkg@, part@, part@.rels.rels),
{
    let rels = part.rels.as_vec();
    let base = part.partname.base_uri();
    let ghost rv = part@.rels.rels;
    let mut out: Vec<ValidationIssue> = Vec::new();
    let mut i: usize = 0;
    assert(issues_view(out@) =~= part_target_issues(pkg@, part@, rv.take(0)));
    while i < rels.len()
        invariant
            i <= rels.len(),
            rel_views(rels@) == rv,
            rv == part@.rels.rels,
            base@ == base_uri_spec(part@.partname),
            issues_view(out@) == part_target_issues(pkg@, part@, rv.take(i as int)),
        decreases rels.len() - i,
    {
        assert(rv.take(i as int + 1).drop_last() =~= rv.take(i as int));
        assert(rv.take(i as int + 1).last() == rels@[i as int]@);
        let rel = &rels[i];
        if !rel.is_external {
            let pn = crate::opc::uri::resolve_target(base.as_str(), rel.target_ref.as_str());
            if !has_part_exec(pkg, pn.as_str()) {
                let mut d = String::new();
                string_push_str(&mut d, "Relationship ");
                string_push_str(&mut d, rel.r_id.as_str());
                string_push_str(&mut d, " in ");
                string_push_str(&mut d, part.partname.as_str());
                string_push_str(&mut d, " targets missing part ");
                string_push_str(&mut d, pn.as_str());
                let x = one(Severity::High, IssueCategory::BrokenRelationship, d, part.partname.to_string());
                append_issues(&mut out, x);
            } else {
                assert(issues_view(out@) =~= issues_view(out@) + Seq::<IssueView>::empty());
            }
        } else {
            assert(issues_view(out@) =~= issues_view(out@) + Seq::<IssueView>::empty());
        }
        i = i + 1;
    }
    assert(rv.take(i as int) =~= rv);
    out
}

fn check_parts_targets(pkg: &OpcPackage) -> (r: Vec<ValidationIssue>)
    ensures
        issues_view(r@) == parts_target_issues(pkg@, pkg@.parts),
{
    let parts = pkg.parts();
    let ghost pv = pkg@.parts;
    let mut out: Vec<ValidationIssue> = Vec::new();
    let mut i: usize = 0;
    assert(issues_view(out@) =~= parts_target_issues(pkg@, pv.take(0)));
    while i < parts.len()
        invariant
            i <= parts.len(),
            part_views(parts@) == pv,
            pv == pkg@.parts,
            issues_view(out@) == parts_target_issues(pkg@, pv.take(i as int)),
        decreases parts.len() - i,
    {
        assert(pv.take(i as int + 1).drop_last() =~= pv.take(i as int));
        assert(pv.take(i as int + 1).last() == parts@[i as int]@);
        let x = check_part_targets(pkg, &parts[i]);
        append_issues(&mut out, x);
        i = i + 1;
    }
    assert(pv.take(i as int) =~= pv);
    out
}

/// Issues of relationships whose internal target is not a part: the package's, then each
/// part's.
fn check_relationship_targets(pkg: &OpcPackage) -> (r: Vec<ValidationIssue>)
    ensures
        issues_view(r@) == pkg_target_issues(pkg@, pkg@.pkg_rels.rels) + parts_target_issues(pkg@, pkg@.parts),
{
    let mut issues = check_pkg_targets(pkg);
    append_issues(&mut issues, check_parts_targets(pkg));
    issues
}

fn check_xml_wellformedness(pkg: &OpcPackage) -> (r: Vec<ValidationIssue>)
    ensures
        issues_view(r@) == xml_issues(pkg@.parts),
{
    let parts = pkg.parts();
    let ghost pv = pkg@.parts;
    let xml = crate::text::str_to_chars("xml");
    let mut out: Vec<ValidationIssue> = Vec::new();
    let mut i: usize = 0;
    assert(issues_view(out@) =~= xml_issues(pv.take(0)));
    while i < parts.len()
        invariant
            i <= parts.len(),
            part_views(parts@) == pv,
            xml@ == "xml"@,
            issues_view(out@) == xml_issues(pv.take(i as int)),
        decreases parts.len() - i,
    {
        assert(pv.take(i as int + 1).drop_last() =~= pv.take(i as int));
        assert(pv.take(i as int + 1).last() == parts@[i as int]@);
        let part = &parts[i];
        let ct = crate::text::str_to_chars(part.content_type.as_str());
        let has_xml = crate::id_list::find_chars(&ct, &xml, 0).is_some();
        if has_xml && !crate::xml::is_well_formed_xml(part.blob.as_slice()) {
            let mut d = String::new();
            string_push_str(&mut d, "Malformed XML in part ");
            string_push_str(&mut d, part.partname.as_str());
            let x = one(Severity::High, IssueCategory::InvalidXml, d, part.partname.to_string());
            append_issues(&mut out, x);
        } else {
            assert(issues_view(out@) =~= issues_view(out@) + Seq::<IssueView>::empty());
        }
        i = i + 1;
    }
    assert(pv.take(i as int) =~= pv);
    out
}

fn check_content_types(pkg: &OpcPackage) -> (r: Vec<ValidationIssue>)
    ensures
        issues_view(r@) == content_type_issues(pkg@.parts),
{
    let parts = pkg.parts();
    let ghost pv = pkg@.parts;
    let mut out: Vec<ValidationIssue> = Vec::new();
    let mut i: usize = 0;
    assert(issues_view(out@) =~= content_type_issues(pv.take(0)));
    while i < parts.len()
        invariant
            i <= parts.len(),
            part_views(parts@) == pv,
            issues_view(out@) == content_type_issues(pv.take(i as int)),
        decreases parts.len() - i,
    {
        assert(pv.take(i as int + 1).drop_last() =~= pv.take(i as int));
        assert(pv.take(i as int + 1).last() == parts@[i as int]@);
        let part = &parts[i];
        if crate::text::str_to_chars(part.content_type.as_str()).len() == 0 {
            let mut d = String::new();
            string_push_str(&mut d, "Part ");
            string_push_str(&mut d, part.partname.as_str());
            string_push_str(&mut d, " has an empty content type");
            let x = one(Severity::Medium, IssueCategory::InvalidContentType, d, part.partname.to_string());
            append_issues(&mut out, x);
        } else {
            assert(issues_view(out@) =~= issues_view(out@) + Seq::<IssueView>::empty());
        }
        i = i + 1;
    }
    assert(pv.take(i as int) =~= pv);
    out
}

pub(crate) fn rid_listed_exec(ids: &Vec<(Vec<char>, u32)>, rid: &str) -> (r: bool)
    ensures
        r == rid_listed(entries_view(ids@), rid@),
{
    let ghost l = entries_view(ids@);
    let rc = crate::text::str_to_chars(rid);
    let mut k: usize = 0;
    while k < ids.len()
        invariant
            k <= ids.len(),
            l == entries_view(ids@),
            rc@ == rid@,
            forall|m: int| 0 <= m < k ==> l[m].0 != rid@,
        decreases ids.len() - k,
    {
        if crate::opc::uri::vec_chars_eq(&ids[k].0, &rc) {
            assert(l[k as int].0 == rid@);
            return true;
        }
        k = k + 1;
    }
    false
}

fn check_slide_references(pkg: &OpcPackage) -> (r: Vec<ValidationIssue>)
    ensures
        issues_view(r@) == slide_ref_issues(pkg@),
{
    let pp = match pkg.part_by_reltype(OFFICE_DOCUMENT) {
        Ok(p) => p,
        Err(_) => {
            let v: Vec<ValidationIssue> = Vec::new();
            assert(issues_view(v@) =~= Seq::<IssueView>::empty());
            return v;
        },
    };
    let ids = match crate::slide::parse_slide_ids(pp.blob.as_slice()) {
        Ok(v) => v,
        Err(_) => {
            return one(
                Severity::High,
                IssueCategory::InvalidXml,
                "Failed to parse sldIdLst from presentation.xml".to_owned(),
                pp.partname.to_string(),
            );
        },
    };
    let ghost l = entries_view(ids@);
    let base = pp.partname.base_uri();
    let mut out: Vec<ValidationIssue> = Vec::new();
    let mut i: usize = 0;
    assert(issues_view(out@) =~= entry_issues(pkg@, pp@, l.take(0)));
    while i < ids.len()
        invariant
            i <= ids.len(),
            l == entries_view(ids@),
            base@ == base_uri_spec(pp@.partname),
            issues_view(out@) == entry_issues(pkg@, pp@, l.take(i as int)),
        decreases ids.len() - i,
    {
        assert(l.take(i as int + 1).drop_last() =~= l.take(i as int));
        assert(l.take(i as int + 1).last() == l[i as int]);
        let rid = crate::text::chars_to_string(&ids[i].0);
        match pp.rels.get(rid.as_str()) {
            Some(rel) => {
                if !rel.is_external {
                    let pn = crate::opc::uri::resolve_target(base.as_str(), rel.target_ref.as_str());
                    if !has_part_exec(pkg, pn.as_str()) {
                        let mut d = String::new();
                        string_push_str(&mut d, "Slide referenced in sldIdLst (");
                        string_push_str(&mut d, rid.as_str());
                        string_push_str(&mut d, ") points to missing part ");
                        string_push_str(&mut d, pn.as_str());
                        let x = one(Severity::High, IssueCategory::MissingSlideRef, d, pp.partname.to_string());
                        append_issues(&mut out, x);
                    } else {
                        assert(issues_view(out@) =~= issues_view(out@) + Seq::<IssueView>::empty());
                    }
                } else {
                    assert(issues_view(out@) =~= issues_view(out@) + Seq::<IssueView>::empty());
                }
            },
            None => {
                let mut d = String::new();
                string_push_str(&mut d, "Slide referenced in sldIdLst with rId ");
                string_push_str(&mut d, rid.as_str());
                string_push_str(&mut d, " has no matching relationship");
                let x = one(Severity::High, IssueCategory::MissingSlideRef, d, pp.partname.to_string());
                append_issues(&mut out, x);
            },
        }
        i = i + 1;
    }
    assert(l.take(i as int) =~= l);
    let rels = pp.rels.as_vec();
    let ghost rv = pp@.rels.rels;
    let ghost first = issues_view(out@);
    let mut j: usize = 0;
    assert(orphan_issues(pp@, l, rv.take(0)) =~= Seq::<IssueView>::empty());
    while j < rels.len()
        invariant
            j <= rels.len(),
            rel_views(rels@) == rv,
            rv == pp@.rels.rels,
            l == entries_view(ids@),
            issues_view(out@) == first + orphan_issues(pp@, l, rv.take(j as int)),
        decreases rels.len() - j,
    {
        assert(rv.take(j as int + 1).drop_last() =~= rv.take(j as int));
        assert(rv.take(j as int + 1).last() == rels@[j as int]@);
        let rel = &rels[j];
        if crate::enums::str_eq(rel.rel_type.as_str(), SLIDE) && !rid_listed_exec(&ids, rel.r_id.as_str()) {
            let mut d = String::new();
            string_push_str(&mut d, "Slide relationship ");
            string_push_str(&mut d, rel.r_id.as_str());
            string_push_str(&mut d, " (target: ");
            string_push_str(&mut d, rel.target_ref.as_str());
            string_push_str(&mut d, ") not referenced in sldIdLst");
            let x = one(Severity::Medium, IssueCategory::OrphanSlide, d, pp.partname.to_string());
            append_issues(&mut out, x);
        } else {
            assert(issues_view(out@) =~= issues_view(out@) + Seq::<IssueView>::empty());
        }
        j = j + 1;
    }
    assert(rv.take(j as int) =~= rv);
    out
}

impl PptxValidator {
    /// All issues of a presentation (see `validation_issues`).
    pub fn validate(prs: &Presentation) -> (r: Vec<ValidationIssue>)
        ensures
            issues_view(r@) == validation_issues(prs@),
    {
        let pkg = prs.package();
        let mut issues = check_presentation_part_exists(pkg);
        append_issues(&mut issues, check_package_rels(pkg));
        append_issues(&mut issues, check_relationship_targets(pkg));
        append_issues(&mut issues, check_xml_wellformedness(pkg));
        append_issues(&mut issues, check_slide_references(pkg));
        append_issues(&mut issues, check_content_types(pkg));
        issues
    }

    /// All issues of the presentation in the bytes of a .pptx file (see `validate`); bytes
    /// that cannot be opened give one critical issue.
    pub fn validate_bytes(data: &[u8]) -> (r: Vec<ValidationIssue>)
        ensures
            match crate::opc::load::package_from_bytes(data@) {
                Ok(p) => issues_view(r@) == validation_issues(p),
                Err(_) => issues_view(r@) == seq![issue(Severity::Critical, IssueCategory::InvalidXml, "Failed to open PPTX"@, None)],
            },
    {
        match Presentation::from_bytes(data) {
            Ok(prs) => PptxValidator::validate(&prs),
            Err(_) => {
                let mut v: Vec<ValidationIssue> = Vec::new();
                v.push(ValidationIssue::new(Severity::Critical, IssueCategory::InvalidXml, "Failed to open PPTX", None));
                assert(issues_view(v@) =~= seq![issue(Severity::Critical, IssueCategory::InvalidXml, "Failed to open PPTX"@, None)]);
                v
            },
        }
    }
}

} // verus!
