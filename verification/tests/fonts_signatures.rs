use pptx::embedded_font::EmbeddedFont;
use pptx::error::PptxError;
use pptx::opc::uri::PackURI;
use pptx::presentation::{parse_signature_xml, Presentation};
use pptx::signature::{DigitalSignature, HashAlgorithm, SignatureCommitment, SignerInfo};

#[test]
fn test_embedded_fonts_empty() {
    let prs = Presentation::new().unwrap();
    let fonts = prs.embedded_fonts().unwrap();
    assert!(fonts.is_empty());
}

#[test]
fn test_add_and_read_embedded_font() {
    let mut prs = Presentation::new().unwrap();

    let font = EmbeddedFont::from_bytes(vec![0x00, 0x01, 0x00, 0x00, 0xAA, 0xBB], "TestFont", false, false);
    prs.add_embedded_font(&font).unwrap();

    // Verify the font data part exists
    let font_uri = PackURI::new("/ppt/fonts/font1.fntdata").unwrap();
    let font_part = prs.package().part(&font_uri);
    assert!(font_part.is_some());
    assert_eq!(font_part.unwrap().blob, vec![0x00, 0x01, 0x00, 0x00, 0xAA, 0xBB]);

    // Verify the presentation XML contains the embedded font entry
    let pres_part = prs
        .package()
        .part_by_reltype(pptx::opc::relationship_type::OFFICE_DOCUMENT)
        .unwrap();
    let pres_xml = std::str::from_utf8(&pres_part.blob).unwrap();
    assert!(pres_xml.contains("embeddedFontLst"));
    assert!(pres_xml.contains("TestFont"));
}

#[test]
fn test_add_bold_italic_font() {
    let mut prs = Presentation::new().unwrap();
    let font = EmbeddedFont::from_bytes(vec![1, 2, 3], "BoldItalicFont", true, true);
    prs.add_embedded_font(&font).unwrap();

    let pres_part = prs
        .package()
        .part_by_reltype(pptx::opc::relationship_type::OFFICE_DOCUMENT)
        .unwrap();
    let pres_xml = std::str::from_utf8(&pres_part.blob).unwrap();
    assert!(pres_xml.contains("p:boldItalic"));
}

#[test]
fn embedded_fonts_read_back_in_order() {
    let mut prs = Presentation::new().unwrap();
    prs.add_embedded_font(&EmbeddedFont::from_bytes(vec![1, 2, 3], "Alpha", false, false)).unwrap();
    prs.add_embedded_font(&EmbeddedFont::from_bytes(vec![4, 5], "Beta", true, false)).unwrap();
    prs.add_embedded_font(&EmbeddedFont::from_bytes(vec![6], "Gamma", false, true)).unwrap();
    let fonts = prs.embedded_fonts().unwrap();
    assert_eq!(fonts.len(), 3);
    assert_eq!(fonts[0], EmbeddedFont::from_bytes(vec![1, 2, 3], "Alpha", false, false));
    assert_eq!(fonts[1], EmbeddedFont::from_bytes(vec![4, 5], "Beta", true, false));
    assert_eq!(fonts[2], EmbeddedFont::from_bytes(vec![6], "Gamma", false, true));
    let pres_part = prs
        .package()
        .part_by_reltype(pptx::opc::relationship_type::OFFICE_DOCUMENT)
        .unwrap();
    let pres_xml = std::str::from_utf8(&pres_part.blob).unwrap();
    assert_eq!(pres_xml.matches("<p:embeddedFontLst>").count(), 1);
    assert!(pres_xml.contains("</p:sldMasterIdLst><p:embeddedFontLst><p:embeddedFont>"));
    assert!(pres_xml.contains(r#"<p:font typeface="Beta"/><p:bold r:id="#));
    assert!(pres_xml.contains(r#"<p:font typeface="Gamma"/><p:italic r:id="#));
}

#[test]
fn embedded_font_typeface_is_escaped() {
    let mut prs = Presentation::new().unwrap();
    prs.add_embedded_font(&EmbeddedFont::from_bytes(vec![9], "A&B", false, false)).unwrap();
    let pres_part = prs
        .package()
        .part_by_reltype(pptx::opc::relationship_type::OFFICE_DOCUMENT)
        .unwrap();
    let pres_xml = std::str::from_utf8(&pres_part.blob).unwrap();
    assert!(pres_xml.contains(r#"typeface="A&amp;B""#));
    // the raw attribute value is read back, without unescaping
    let fonts = prs.embedded_fonts().unwrap();
    assert_eq!(fonts[0].typeface, "A&amp;B");
}

#[test]
fn embedded_font_without_part_is_skipped() {
    let mut prs = Presentation::new().unwrap();
    prs.add_embedded_font(&EmbeddedFont::from_bytes(vec![1], "Gone", false, false)).unwrap();
    let uri = PackURI::new("/ppt/fonts/font1.fntdata").unwrap();
    prs.package_mut().remove_part(&uri);
    assert!(prs.embedded_fonts().unwrap().is_empty());
}

#[test]
fn test_add_and_read_digital_signature() {
    let mut prs = Presentation::new().unwrap();

    let signer = SignerInfo::new("Test User").with_email("test@example.com").with_title("Author");
    let sig = DigitalSignature::new(signer, HashAlgorithm::Sha256)
        .with_commitment(SignatureCommitment::Approved)
        .with_sign_time("2024-06-15T10:30:00Z");

    prs.add_digital_signature(&sig).unwrap();

    let signatures = prs.digital_signatures().unwrap();
    assert_eq!(signatures.len(), 1);

    let read_sig = &signatures[0];
    assert_eq!(read_sig.signer.name, "Test User");
    assert_eq!(read_sig.signer.email.as_deref(), Some("test@example.com"));
    assert_eq!(read_sig.signer.title.as_deref(), Some("Author"));
    assert_eq!(read_sig.hash_algorithm, HashAlgorithm::Sha256);
    assert_eq!(read_sig.commitment, SignatureCommitment::Approved);
    assert_eq!(read_sig.sign_time.as_deref(), Some("2024-06-15T10:30:00Z"));
}

#[test]
fn test_no_signatures_returns_empty() {
    let prs = Presentation::new().unwrap();
    let signatures = prs.digital_signatures().unwrap();
    assert!(signatures.is_empty());
}

#[test]
fn test_multiple_signatures() {
    let mut prs = Presentation::new().unwrap();

    let sig1 = DigitalSignature::new(SignerInfo::new("Alice"), HashAlgorithm::Sha1)
        .with_commitment(SignatureCommitment::Created);
    let sig2 = DigitalSignature::new(SignerInfo::new("Bob"), HashAlgorithm::Sha256)
        .with_commitment(SignatureCommitment::Reviewed);

    prs.add_digital_signature(&sig1).unwrap();
    prs.add_digital_signature(&sig2).unwrap();

    let signatures = prs.digital_signatures().unwrap();
    assert_eq!(signatures.len(), 2);
}

#[test]
fn test_parse_signature_xml_basic() {
    let xml = r##"<?xml version="1.0" encoding="UTF-8"?><Signature xmlns="http://www.w3.org/2000/09/xmldsig#" Id="idSignature"><SignedInfo><CanonicalizationMethod Algorithm="http://www.w3.org/TR/2001/REC-xml-c14n-20010315"/><SignatureMethod Algorithm="http://www.w3.org/2001/04/xmlenc#sha256"/><Reference URI="/ppt/presentation.xml"><DigestMethod Algorithm="http://www.w3.org/2001/04/xmlenc#sha256"/><DigestValue/></Reference></SignedInfo><SignatureValue/><Object xmlns:mdssi="http://schemas.openxmlformats.org/package/2006/digital-signature"><SignatureProperties><SignatureProperty Id="idSignerName" Target="#idSignature"><mdssi:SignerName>Test</mdssi:SignerName></SignatureProperty></SignatureProperties></Object></Signature>"##;

    let sig = parse_signature_xml(xml.as_bytes()).unwrap();
    assert_eq!(sig.signer.name, "Test");
    assert_eq!(sig.hash_algorithm, HashAlgorithm::Sha256);
}

#[test]
fn signatures_read_back_with_every_field() {
    let mut prs = Presentation::new().unwrap();
    let a = DigitalSignature::new(SignerInfo::new("Alice").with_title("Editor"), HashAlgorithm::Sha512)
        .with_commitment(SignatureCommitment::Reviewed);
    let b = DigitalSignature::new(SignerInfo::new("Bob").with_email("bob@example.com"), HashAlgorithm::Sha1)
        .with_sign_time("2023-01-02T03:04:05Z");
    prs.add_digital_signature(&a).unwrap();
    prs.add_digital_signature(&b).unwrap();
    let sigs = prs.digital_signatures().unwrap();
    assert_eq!(sigs, vec![a, b]);
}

#[test]
fn parse_signature_defaults_and_errors() {
    let sig = parse_signature_xml(b"<Signature/>").unwrap();
    assert_eq!(sig.signer.name, "");
    assert_eq!(sig.signer.email, None);
    assert_eq!(sig.hash_algorithm, HashAlgorithm::Sha1);
    assert_eq!(sig.commitment, SignatureCommitment::Created);
    assert_eq!(sig.sign_time, None);
    assert!(matches!(parse_signature_xml(&[0xff, 0xfe]), Err(PptxError::InvalidXml(_))));
    assert_eq!(parse_signature_xml(b"<a><b></a>"), Err(PptxError::Xml));
    let sig = parse_signature_xml(
        b"<x:SignatureMethod x:Algorithm=\"urn:sha512\"/><CommitmentTypeId>urn:x/approved</CommitmentTypeId>",
    )
    .unwrap();
    assert_eq!(sig.hash_algorithm, HashAlgorithm::Sha512);
    assert_eq!(sig.commitment, SignatureCommitment::Approved);
}
