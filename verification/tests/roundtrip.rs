use pptx::opc::uri::PackURI;
use pptx::presentation::Presentation;
use pptx::repair::{IssueCategory, PptxValidator, Severity};
use pptx::signature::{DigitalSignature, HashAlgorithm, SignerInfo};

#[test]
fn test_round_trip_with_slides() {
    let mut prs = Presentation::new().unwrap();
    let layouts = prs.slide_layouts().unwrap();
    prs.add_slide(&layouts[0]).unwrap();
    prs.add_slide(&layouts[1]).unwrap();

    // Save and reopen
    let bytes = prs.to_bytes().unwrap();
    let prs2 = Presentation::from_bytes(&bytes).unwrap();

    assert_eq!(prs2.slide_count().unwrap(), 2);
    let slides = prs2.slides().unwrap();
    assert_eq!(slides[0].partname.as_str(), "/ppt/slides/slide1.xml");
    assert_eq!(slides[1].partname.as_str(), "/ppt/slides/slide2.xml");

    // Verify layouts are still available
    let layouts2 = prs2.slide_layouts().unwrap();
    assert_eq!(layouts2.len(), 11);
}

#[test]
fn test_from_reader() {
    let prs = Presentation::new().unwrap();
    let bytes = prs.to_bytes().unwrap();
    let cursor = std::io::Cursor::new(bytes);

    let prs2 = Presentation::from_reader(cursor).unwrap();
    assert_eq!(prs2.slide_count().unwrap(), 0);
}

#[test]
fn test_write_to() {
    let mut prs = Presentation::new().unwrap();
    let layouts = prs.slide_layouts().unwrap();
    prs.add_slide(&layouts[0]).unwrap();

    let mut buf = Vec::new();
    prs.write_to(&mut buf).unwrap();

    let prs2 = Presentation::from_bytes(&buf).unwrap();
    assert_eq!(prs2.slide_count().unwrap(), 1);
}

#[test]
fn test_notes_master_round_trip() {
    let mut prs = Presentation::new().unwrap();
    let nm = prs.notes_master_or_create().unwrap();

    // Save and reopen
    let bytes = prs.to_bytes().unwrap();
    let prs2 = Presentation::from_bytes(&bytes).unwrap();
    let nm2 = prs2.notes_master().unwrap();
    assert!(nm2.is_some());
    assert_eq!(nm2.unwrap().partname.as_str(), nm.partname.as_str());
}

#[test]
fn test_signature_round_trip_save_load() {
    let mut prs = Presentation::new().unwrap();

    let signer = SignerInfo::new("Round Trip User");
    let sig = DigitalSignature::new(signer, HashAlgorithm::Sha1).with_sign_time("2024-01-01T00:00:00Z");

    prs.add_digital_signature(&sig).unwrap();

    // Save to bytes and reload
    let bytes = prs.to_bytes().unwrap();
    let prs2 = Presentation::from_bytes(&bytes).unwrap();

    let signatures = prs2.digital_signatures().unwrap();
    assert_eq!(signatures.len(), 1);
    assert_eq!(signatures[0].signer.name, "Round Trip User");
    assert_eq!(signatures[0].hash_algorithm, HashAlgorithm::Sha1);
    assert_eq!(signatures[0].sign_time.as_deref(), Some("2024-01-01T00:00:00Z"));
}

#[test]
fn validate_bytes_of_default_presentation() {
    let prs = Presentation::new().unwrap();
    let bytes = prs.to_bytes().unwrap();
    let issues = PptxValidator::validate_bytes(&bytes);
    assert!(issues.is_empty(), "Expected no issues, got: {:?}", issues);
}

#[test]
fn validate_bytes_with_invalid_data() {
    let issues = PptxValidator::validate_bytes(b"not a zip file");
    assert_eq!(issues.len(), 1);
    assert_eq!(issues[0].severity, Severity::Critical);
    assert_eq!(issues[0].category, IssueCategory::InvalidXml);
}

#[test]
fn round_trip_keeps_every_part_and_relationship() {
    let mut prs = Presentation::new().unwrap();
    let layouts = prs.slide_layouts().unwrap();
    let s = prs.add_slide(&layouts[2]).unwrap();
    prs.set_slide_transition(&s, r#"<p:transition spd="fast"/>"#).unwrap();
    prs.set_vba_project(vec![1, 2, 3]).unwrap();
    let bytes = prs.to_bytes().unwrap();
    let prs2 = Presentation::from_bytes(&bytes).unwrap();
    let a = prs.package();
    let b = prs2.package();
    assert_eq!(a.part_count(), b.part_count());
    for p in a.parts() {
        let q = b.part(&p.partname).unwrap();
        assert_eq!(p.content_type, q.content_type);
        assert_eq!(p.blob, q.blob);
        assert_eq!(p.rels.as_vec(), q.rels.as_vec());
        assert_eq!(p.rels.base_uri(), q.rels.base_uri());
    }
    assert_eq!(a.pkg_rels().as_vec(), b.pkg_rels().as_vec());
    assert_eq!(prs2.vba_project().unwrap().unwrap(), vec![1, 2, 3]);
}

#[test]
fn round_trip_of_escaped_and_external_targets() {
    let mut prs = Presentation::new().unwrap();
    let layouts = prs.slide_layouts().unwrap();
    let s = prs.add_slide(&layouts[0]).unwrap();
    let rid = prs
        .package_mut()
        .part_mut(&s.partname)
        .unwrap()
        .rels
        .add_relationship("http://example.com/link", "http://example.com/?a=1&b=<2>", true);
    let bytes = prs.to_bytes().unwrap();
    let prs2 = Presentation::from_bytes(&bytes).unwrap();
    let part = prs2.package().part(&s.partname).unwrap();
    let rel = part.rels.get(&rid).unwrap();
    assert_eq!(rel.target_ref, "http://example.com/?a=1&b=<2>");
    assert!(rel.is_external);
}

#[test]
fn from_bytes_without_content_types_fails() {
    // an archive holding one entry but no [Content_Types].xml
    let mut prs = Presentation::new().unwrap();
    let uri = PackURI::new("/ppt/presentation.xml").unwrap();
    prs.package_mut().remove_part(&uri);
    let bytes = prs.to_bytes().unwrap();
    // still opens: [Content_Types].xml is always written
    assert!(Presentation::from_bytes(&bytes).is_ok());
    assert!(Presentation::from_bytes(b"PK\x05\x06\0\0\0\0\0\0\0\0\0\0\0\0\0\0\0\0\0\0").is_err());
}

#[test]
fn from_bytes_of_garbage_is_a_package_error() {
    let r = Presentation::from_bytes(b"definitely not a zip");
    assert!(matches!(r, Err(pptx::error::PptxError::Package(_))));
}

#[test]
fn pptm_bytes_are_macro_enabled_after_reopen() {
    let mut prs = Presentation::new().unwrap();
    prs.set_vba_project(vec![0x01, 0x02, 0x03]).unwrap();
    let bytes = prs.to_pptm_bytes().unwrap();
    assert!(prs.is_macro_enabled());
    let prs2 = Presentation::from_bytes(&bytes).unwrap();
    assert!(prs2.is_macro_enabled());
    assert_eq!(prs2.vba_project().unwrap().unwrap(), vec![0x01, 0x02, 0x03]);
}

#[test]
fn from_read_result_cases() {
    assert!(matches!(Presentation::from_read_result(None), Err(pptx::error::PptxError::Io(_))));
    assert!(matches!(
        Presentation::from_read_result(Some(b"garbage".to_vec())),
        Err(pptx::error::PptxError::Package(_))
    ));
    let bytes = Presentation::new().unwrap().to_bytes().unwrap();
    assert_eq!(Presentation::from_read_result(Some(bytes)).unwrap().slide_count().unwrap(), 0);
}

#[test]
fn default_template_parts_in_order() {
    let prs = Presentation::new().unwrap();
    let names: Vec<&str> = prs.package().parts().iter().map(|p| p.partname.as_str()).collect();
    assert_eq!(names.len(), 14);
    assert_eq!(names[0], "/ppt/presentation.xml");
    assert_eq!(names[1], "/ppt/slideLayouts/slideLayout1.xml");
    assert_eq!(names[11], "/ppt/slideLayouts/slideLayout11.xml");
    assert_eq!(names[12], "/ppt/slideMasters/slideMaster1.xml");
    assert_eq!(names[13], "/ppt/theme/theme1.xml");
    let master = &prs.package().parts()[12];
    assert_eq!(master.rels.len(), 12);
    assert_eq!(master.rels.as_vec()[11].r_id, "rId12");
    let layout = String::from_utf8(prs.package().parts()[3].blob.clone()).unwrap();
    assert!(layout.contains(r#"type="secHead""#) && layout.contains(r#"name="Section Header""#));
}
