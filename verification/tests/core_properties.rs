use pptx::core_properties::CoreProperties;
use pptx::presentation::Presentation;

#[test]
fn test_core_properties_roundtrip() {
    let mut prs = Presentation::new().unwrap();

    let mut props = CoreProperties::new();
    props.set_title("Test Title");
    props.set_author("Test Author");
    prs.set_core_properties(&props).unwrap();

    let bytes = prs.to_bytes().unwrap();
    let prs2 = Presentation::from_bytes(&bytes).unwrap();
    let props2 = prs2.core_properties().unwrap();

    assert_eq!(props2.title(), "Test Title");
    assert_eq!(props2.author(), "Test Author");
}

#[test]
fn core_properties_default_is_empty() {
    let prs = Presentation::new().unwrap();
    let p = prs.core_properties().unwrap();
    assert_eq!(p.title(), "");
    assert_eq!(p.author(), "");
}

#[test]
fn core_properties_xml_escapes_and_reads_back() {
    let mut props = CoreProperties::new();
    props.set_title("Q&A <draft>");
    props.set(8, "2024-01-02T03:04:05Z");
    let xml = String::from_utf8(props.to_xml()).unwrap();
    assert!(xml.contains("<dc:title>Q&amp;A &lt;draft&gt;</dc:title>"));
    assert!(xml.contains(r#"<dcterms:created xsi:type="dcterms:W3CDTF">2024-01-02T03:04:05Z</dcterms:created>"#));
    assert!(!xml.contains("dc:creator"));
    let back = CoreProperties::from_xml(xml.as_bytes()).unwrap();
    assert_eq!(back, props);
}

#[test]
fn set_core_properties_twice_keeps_one_relationship() {
    let mut prs = Presentation::new().unwrap();
    let mut props = CoreProperties::new();
    props.set_title("A");
    prs.set_core_properties(&props).unwrap();
    props.set_title("B");
    prs.set_core_properties(&props).unwrap();
    let n = prs
        .package()
        .pkg_rels()
        .all_by_reltype(pptx::opc::relationship_type::CORE_PROPERTIES)
        .len();
    assert_eq!(n, 1);
    assert_eq!(prs.core_properties().unwrap().title(), "B");
}

#[test]
fn core_properties_reader_error() {
    assert!(CoreProperties::from_xml(b"<cp:coreProperties><dc:title>x</dc:subject>").is_err());
}
