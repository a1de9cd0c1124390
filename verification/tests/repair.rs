use pptx::opc::content_type as CT;
use pptx::opc::package::Part;
use pptx::opc::relationship_type as RT;
use pptx::opc::uri::PackURI;
use pptx::presentation::Presentation;
use pptx::repair::{IssueCategory, PptxRepairer, PptxValidator, RepairReport, Severity, ValidationIssue};
use pptx::xml::is_well_formed_xml;

#[test]
fn severity_and_category_are_debug_clone() {
    let s = Severity::Critical;
    let s2 = s;
    assert_eq!(s, s2);
    let _ = format!("{:?}", s);
    let c = IssueCategory::MissingPart;
    let c2 = c;
    assert_eq!(c, c2);
    let _ = format!("{:?}", c);
}

#[test]
fn validation_issue_fields_accessible() {
    let issue = ValidationIssue::new(
        Severity::Low,
        IssueCategory::MissingNamespace,
        "test description",
        Some("/ppt/test.xml".to_string()),
    );
    assert_eq!(issue.severity, Severity::Low);
    assert_eq!(issue.category, IssueCategory::MissingNamespace);
    assert_eq!(issue.description, "test description");
    assert_eq!(issue.location.as_deref(), Some("/ppt/test.xml"));
}

#[test]
fn validate_default_presentation_is_clean() {
    let prs = Presentation::new().unwrap();
    let issues = PptxValidator::validate(&prs);
    assert!(issues.is_empty(), "Expected no issues, got: {:?}", issues);
}

#[test]
fn detect_broken_relationship() {
    let mut prs = Presentation::new().unwrap();
    let pres_partname = prs.package().part_by_reltype(RT::OFFICE_DOCUMENT).unwrap().partname.clone();
    prs.package_mut()
        .part_mut(&pres_partname)
        .unwrap()
        .rels
        .add_relationship(RT::SLIDE, "slides/slideNONEXISTENT.xml", false);
    let issues = PptxValidator::validate(&prs);
    let broken = issues.iter().filter(|i| i.category == IssueCategory::BrokenRelationship).count();
    assert!(broken >= 1, "Expected broken relationship issue, got: {:?}", issues);
}

const ORPHAN_SLIDE_XML: &[u8] = br#"<?xml version="1.0" encoding="UTF-8" standalone="yes"?>
<p:sld xmlns:p="http://schemas.openxmlformats.org/presentationml/2006/main"
       xmlns:a="http://schemas.openxmlformats.org/drawingml/2006/main"
       xmlns:r="http://schemas.openxmlformats.org/officeDocument/2006/relationships">
  <p:cSld><p:spTree><p:nvGrpSpPr><p:cNvPr id="1" name=""/><p:cNvGrpSpPr/><p:nvPr/></p:nvGrpSpPr><p:grpSpPr/></p:spTree></p:cSld>
</p:sld>"#;

#[test]
fn detect_orphan_slide_relationship() {
    let mut prs = Presentation::new().unwrap();
    let slide_pn = PackURI::new("/ppt/slides/slide99.xml").unwrap();
    let slide_part = Part::new(slide_pn, CT::PML_SLIDE, ORPHAN_SLIDE_XML.to_vec());
    prs.package_mut().put_part(slide_part);
    let pres_partname = prs.package().part_by_reltype(RT::OFFICE_DOCUMENT).unwrap().partname.clone();
    prs.package_mut()
        .part_mut(&pres_partname)
        .unwrap()
        .rels
        .add_relationship(RT::SLIDE, "slides/slide99.xml", false);
    let issues = PptxValidator::validate(&prs);
    let orphans = issues.iter().filter(|i| i.category == IssueCategory::OrphanSlide).count();
    assert!(orphans >= 1, "Expected orphan slide issue, got: {:?}", issues);
}

#[test]
fn detect_malformed_xml() {
    let mut prs = Presentation::new().unwrap();
    let bad_pn = PackURI::new("/ppt/bad.xml").unwrap();
    let bad_part = Part::new(bad_pn, "application/xml", b"<broken><not-closed>".to_vec());
    prs.package_mut().put_part(bad_part);
    let issues = PptxValidator::validate(&prs);
    let xml_issues = issues.iter().filter(|i| i.category == IssueCategory::InvalidXml).count();
    assert!(xml_issues >= 1, "Expected invalid XML issue, got: {:?}", issues);
}

#[test]
fn detect_empty_content_type() {
    let mut prs = Presentation::new().unwrap();
    let pn = PackURI::new("/ppt/empty_ct.xml").unwrap();
    let part = Part::new(pn, "", b"<?xml version=\"1.0\"?><root/>".to_vec());
    prs.package_mut().put_part(part);
    let issues = PptxValidator::validate(&prs);
    let ct_issues = issues.iter().filter(|i| i.category == IssueCategory::InvalidContentType).count();
    assert!(ct_issues >= 1, "Expected content type issue, got: {:?}", issues);
}

#[test]
fn well_formed_xml_check() {
    assert!(is_well_formed_xml(b"<?xml version=\"1.0\"?><root/>"));
    assert!(is_well_formed_xml(b"<a><b/></a>"));
    assert!(!is_well_formed_xml(b"<broken><not-closed>"));
    assert!(!is_well_formed_xml(b"<<<garbage"));
}

#[test]
fn validate_presentation_with_slide() {
    let mut prs = Presentation::new().unwrap();
    let layouts = prs.slide_layouts().unwrap();
    if let Some(layout) = layouts.first() {
        prs.add_slide(layout).unwrap();
    }
    let issues = PptxValidator::validate(&prs);
    assert!(issues.is_empty(), "Expected no issues, got: {:?}", issues);
}

#[test]
fn repair_removes_broken_relationship() {
    let mut prs = Presentation::new().unwrap();
    let pres_partname = prs.package().part_by_reltype(RT::OFFICE_DOCUMENT).unwrap().partname.clone();
    prs.package_mut()
        .part_mut(&pres_partname)
        .unwrap()
        .rels
        .add_relationship(RT::SLIDE, "slides/slideGHOST.xml", false);
    let report = PptxRepairer::repair(&mut prs);
    assert!(!report.issues_found.is_empty());
    let broken_fixed = report.issues_fixed.iter().filter(|i| i.category == IssueCategory::BrokenRelationship).count();
    assert!(broken_fixed >= 1, "Expected broken rel fix, got: {:?}", report.issues_fixed);
}

#[test]
fn repair_removes_orphan_slide_relationship() {
    let mut prs = Presentation::new().unwrap();
    let slide_pn = PackURI::new("/ppt/slides/slide99.xml").unwrap();
    let slide_part = Part::new(slide_pn, CT::PML_SLIDE, ORPHAN_SLIDE_XML.to_vec());
    prs.package_mut().put_part(slide_part);
    let pres_partname = prs.package().part_by_reltype(RT::OFFICE_DOCUMENT).unwrap().partname.clone();
    prs.package_mut()
        .part_mut(&pres_partname)
        .unwrap()
        .rels
        .add_relationship(RT::SLIDE, "slides/slide99.xml", false);
    let report = PptxRepairer::repair(&mut prs);
    let orphan_fixed = report.issues_fixed.iter().filter(|i| i.category == IssueCategory::OrphanSlide).count();
    assert!(orphan_fixed >= 1, "Expected orphan fix, got: {:?}", report.issues_fixed);
}

#[test]
fn repair_adds_missing_office_document_rel() {
    let mut prs = Presentation::new().unwrap();
    let rid = prs
        .package()
        .pkg_rels
        .as_vec()
        .iter()
        .find(|r| r.rel_type.as_str() == RT::OFFICE_DOCUMENT)
        .map(|r| r.r_id.to_string());
    if let Some(rid) = rid {
        prs.package_mut().pkg_rels.remove(&rid);
    }
    let report = PptxRepairer::repair(&mut prs);
    let rel_fixed = report
        .issues_fixed
        .iter()
        .filter(|i| i.category == IssueCategory::BrokenRelationship && i.description.contains("officeDocument"))
        .count();
    assert!(rel_fixed >= 1, "Expected officeDocument rel fix, got: {:?}", report.issues_fixed);
}

#[test]
fn repair_default_presentation_is_noop() {
    let mut prs = Presentation::new().unwrap();
    let report = PptxRepairer::repair(&mut prs);
    assert!(report.issues_found.is_empty());
    assert!(report.issues_fixed.is_empty());
    assert!(report.is_valid);
}

#[test]
fn repair_report_fields_accessible() {
    let report = RepairReport { issues_found: vec![], issues_fixed: vec![], is_valid: true };
    assert!(report.is_valid);
    assert!(report.issues_found.is_empty());
    assert!(report.issues_fixed.is_empty());
}

#[test]
fn repair_after_validate_is_idempotent() {
    let mut prs = Presentation::new().unwrap();
    let pres_partname = prs.package().part_by_reltype(RT::OFFICE_DOCUMENT).unwrap().partname.clone();
    prs.package_mut()
        .part_mut(&pres_partname)
        .unwrap()
        .rels
        .add_relationship(RT::SLIDE, "slides/nonexistent.xml", false);
    let report1 = PptxRepairer::repair(&mut prs);
    assert!(!report1.issues_fixed.is_empty());
    let report2 = PptxRepairer::repair(&mut prs);
    assert!(report2.issues_found.is_empty(), "Expected clean after first repair, got: {:?}", report2.issues_found);
    assert!(report2.issues_fixed.is_empty());
    assert!(report2.is_valid);
}

#[test]
fn broken_relationship_issue_text_and_location() {
    let mut prs = Presentation::new().unwrap();
    let pres_partname = prs.package().part_by_reltype(RT::OFFICE_DOCUMENT).unwrap().partname.clone();
    let rid = prs.package_mut().part_mut(&pres_partname).unwrap().rels.add_relationship(RT::SLIDE, "slides/x.xml", false);
    let issues = PptxValidator::validate(&prs);
    let want = format!("Relationship {} in /ppt/presentation.xml targets missing part /ppt/slides/x.xml", rid);
    assert!(issues.iter().any(|i| i.description == want && i.location.as_deref() == Some("/ppt/presentation.xml")
        && i.severity == Severity::High));
}

#[test]
fn missing_presentation_part_is_critical() {
    let mut prs = Presentation::new().unwrap();
    let pn = PackURI::new("/ppt/presentation.xml").unwrap();
    prs.package_mut().remove_part(&pn);
    let issues = PptxValidator::validate(&prs);
    assert_eq!(issues[0].severity, Severity::Critical);
    assert_eq!(issues[0].category, IssueCategory::MissingPart);
    assert_eq!(issues[0].location.as_deref(), Some("/ppt/presentation.xml"));
}

#[test]
fn empty_package_relationships_reported() {
    let mut prs = Presentation::new().unwrap();
    let rid = prs.package().pkg_rels.as_vec()[0].r_id.clone();
    prs.package_mut().pkg_rels.remove(&rid);
    let issues = PptxValidator::validate(&prs);
    assert!(issues.iter().any(|i| i.description == "Package relationships (_rels/.rels) are empty"));
}
