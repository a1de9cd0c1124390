use pptx::opc::relationship_type as RT;
use pptx::presentation::Presentation;
use pptx::print_settings::PrintSettings;
use pptx::enums::{PrintColorMode, PrintOrientation};
use pptx::signature::{DigitalSignature, HashAlgorithm, SignerInfo};

#[test]
fn test_add_slide() {
    let mut prs = Presentation::new().unwrap();
    let layouts = prs.slide_layouts().unwrap();
    let layout = &layouts[0];
    let slide_ref = prs.add_slide(layout).unwrap();
    assert_eq!(slide_ref.partname.as_str(), "/ppt/slides/slide1.xml");
    assert_eq!(prs.slide_count().unwrap(), 1);
    let slide_part = prs.package().part(&slide_ref.partname).unwrap();
    let layout_rels = slide_part.rels.all_by_reltype(RT::SLIDE_LAYOUT);
    assert_eq!(layout_rels.len(), 1);
}

#[test]
fn test_add_multiple_slides() {
    let mut prs = Presentation::new().unwrap();
    let layouts = prs.slide_layouts().unwrap();
    let s1 = prs.add_slide(&layouts[0]).unwrap();
    let s2 = prs.add_slide(&layouts[1]).unwrap();
    let s3 = prs.add_slide(&layouts[0]).unwrap();
    assert_eq!(s1.partname.as_str(), "/ppt/slides/slide1.xml");
    assert_eq!(s2.partname.as_str(), "/ppt/slides/slide2.xml");
    assert_eq!(s3.partname.as_str(), "/ppt/slides/slide3.xml");
    assert_eq!(prs.slide_count().unwrap(), 3);
}

#[test]
fn test_slides_in_order() {
    let mut prs = Presentation::new().unwrap();
    let layouts = prs.slide_layouts().unwrap();
    prs.add_slide(&layouts[0]).unwrap();
    prs.add_slide(&layouts[1]).unwrap();
    let slides = prs.slides().unwrap();
    assert_eq!(slides.len(), 2);
    assert_eq!(slides[0].partname.as_str(), "/ppt/slides/slide1.xml");
    assert_eq!(slides[1].partname.as_str(), "/ppt/slides/slide2.xml");
}

#[test]
fn test_slide_xml_access() {
    let mut prs = Presentation::new().unwrap();
    let layouts = prs.slide_layouts().unwrap();
    let slide_ref = prs.add_slide(&layouts[0]).unwrap();
    let xml = prs.slide_xml(&slide_ref).unwrap();
    let xml_str = String::from_utf8_lossy(xml);
    assert!(xml_str.contains("<p:sld"));
}

#[test]
fn test_delete_slide() {
    let mut prs = Presentation::new().unwrap();
    let layouts = prs.slide_layouts().unwrap();
    let s1 = prs.add_slide(&layouts[0]).unwrap();
    let s2 = prs.add_slide(&layouts[1]).unwrap();
    assert_eq!(prs.slide_count().unwrap(), 2);
    prs.delete_slide(&s1).unwrap();
    assert_eq!(prs.slide_count().unwrap(), 1);
    let slides = prs.slides().unwrap();
    assert_eq!(slides[0].partname.as_str(), s2.partname.as_str());
}

#[test]
fn test_slides_get() {
    let mut prs = Presentation::new().unwrap();
    let layouts = prs.slide_layouts().unwrap();
    let s1 = prs.add_slide(&layouts[0]).unwrap();
    let s2 = prs.add_slide(&layouts[1]).unwrap();
    let got0 = prs.slides_get(0).unwrap();
    assert_eq!(got0.partname.as_str(), s1.partname.as_str());
    let got1 = prs.slides_get(1).unwrap();
    assert_eq!(got1.partname.as_str(), s2.partname.as_str());
}

#[test]
fn test_slides_get_out_of_bounds() {
    let prs = Presentation::new().unwrap();
    let result = prs.slides_get(0);
    assert!(result.is_err());
}

#[test]
fn test_slide_index() {
    let mut prs = Presentation::new().unwrap();
    let layouts = prs.slide_layouts().unwrap();
    let s1 = prs.add_slide(&layouts[0]).unwrap();
    let s2 = prs.add_slide(&layouts[1]).unwrap();
    let s3 = prs.add_slide(&layouts[0]).unwrap();
    assert_eq!(prs.slide_index(&s1).unwrap(), 0);
    assert_eq!(prs.slide_index(&s2).unwrap(), 1);
    assert_eq!(prs.slide_index(&s3).unwrap(), 2);
}

#[test]
fn test_slide_index_not_found() {
    let mut prs = Presentation::new().unwrap();
    let layouts = prs.slide_layouts().unwrap();
    let s1 = prs.add_slide(&layouts[0]).unwrap();
    prs.delete_slide(&s1).unwrap();
    let result = prs.slide_index(&s1);
    assert!(result.is_err());
}

#[test]
fn test_move_slide_forward() {
    let mut prs = Presentation::new().unwrap();
    let layouts = prs.slide_layouts().unwrap();
    let s1 = prs.add_slide(&layouts[0]).unwrap();
    let s2 = prs.add_slide(&layouts[1]).unwrap();
    let s3 = prs.add_slide(&layouts[0]).unwrap();
    prs.move_slide(0, 2).unwrap();
    let slides = prs.slides().unwrap();
    assert_eq!(slides[0].partname.as_str(), s2.partname.as_str());
    assert_eq!(slides[1].partname.as_str(), s3.partname.as_str());
    assert_eq!(slides[2].partname.as_str(), s1.partname.as_str());
}

#[test]
fn test_move_slide_backward() {
    let mut prs = Presentation::new().unwrap();
    let layouts = prs.slide_layouts().unwrap();
    let s1 = prs.add_slide(&layouts[0]).unwrap();
    let s2 = prs.add_slide(&layouts[1]).unwrap();
    let s3 = prs.add_slide(&layouts[0]).unwrap();
    prs.move_slide(2, 0).unwrap();
    let slides = prs.slides().unwrap();
    assert_eq!(slides[0].partname.as_str(), s3.partname.as_str());
    assert_eq!(slides[1].partname.as_str(), s1.partname.as_str());
    assert_eq!(slides[2].partname.as_str(), s2.partname.as_str());
}

#[test]
fn test_move_slide_noop() {
    let mut prs = Presentation::new().unwrap();
    let layouts = prs.slide_layouts().unwrap();
    let s1 = prs.add_slide(&layouts[0]).unwrap();
    let _s2 = prs.add_slide(&layouts[1]).unwrap();
    prs.move_slide(0, 0).unwrap();
    let slides = prs.slides().unwrap();
    assert_eq!(slides[0].partname.as_str(), s1.partname.as_str());
}

#[test]
fn test_move_slide_out_of_range() {
    let mut prs = Presentation::new().unwrap();
    let layouts = prs.slide_layouts().unwrap();
    prs.add_slide(&layouts[0]).unwrap();
    let result = prs.move_slide(0, 5);
    assert!(result.is_err());
}

#[test]
fn test_slide_name_default_none() {
    let mut prs = Presentation::new().unwrap();
    let layouts = prs.slide_layouts().unwrap();
    let slide_ref = prs.add_slide(&layouts[0]).unwrap();
    let name = prs.slide_name(&slide_ref).unwrap();
    assert_eq!(name, None);
}

#[test]
fn test_has_notes_slide_false() {
    let mut prs = Presentation::new().unwrap();
    let layouts = prs.slide_layouts().unwrap();
    let slide_ref = prs.add_slide(&layouts[0]).unwrap();
    assert!(!prs.has_notes_slide(&slide_ref));
}

#[test]
fn test_has_notes_slide_true() {
    let mut prs = Presentation::new().unwrap();
    let layouts = prs.slide_layouts().unwrap();
    let slide_ref = prs.add_slide(&layouts[0]).unwrap();
    prs.notes_slide_or_create(&slide_ref).unwrap();
    assert!(prs.has_notes_slide(&slide_ref));
}

#[test]
fn test_slide_layout_for() {
    let mut prs = Presentation::new().unwrap();
    let layouts = prs.slide_layouts().unwrap();
    let layout_name = layouts[0].name.clone();
    let slide_ref = prs.add_slide(&layouts[0]).unwrap();
    let layout = prs.slide_layout_for(&slide_ref).unwrap();
    assert!(layout.is_some());
    assert_eq!(layout.unwrap().name, layout_name);
}

#[test]
fn test_slide_layout_for_second_layout() {
    let mut prs = Presentation::new().unwrap();
    let layouts = prs.slide_layouts().unwrap();
    let layout_name = layouts[1].name.clone();
    let slide_ref = prs.add_slide(&layouts[1]).unwrap();
    let layout = prs.slide_layout_for(&slide_ref).unwrap();
    assert!(layout.is_some());
    assert_eq!(layout.unwrap().name, layout_name);
}

#[test]
fn test_remove_slide_layout_in_use_fails() {
    let mut prs = Presentation::new().unwrap();
    let layouts = prs.slide_layouts().unwrap();
    let layout_clone = layouts[0].clone();
    prs.add_slide(&layouts[0]).unwrap();
    let result = prs.remove_slide_layout(&layout_clone);
    assert!(result.is_err());
}

#[test]
fn test_remove_slide_layout_unused() {
    let mut prs = Presentation::new().unwrap();
    let layouts = prs.slide_layouts().unwrap();
    let initial_count = layouts.len();
    prs.add_slide(&layouts[0]).unwrap();
    let layout_to_remove = layouts[5].clone();
    prs.remove_slide_layout(&layout_to_remove).unwrap();
    let layouts_after = prs.slide_layouts().unwrap();
    assert_eq!(layouts_after.len(), initial_count - 1);
    assert!(!layouts_after.iter().any(|l| l.partname.as_str() == layout_to_remove.partname.as_str()));
}

#[test]
fn test_new_presentation() {
    let prs = Presentation::new().unwrap();
    assert!(prs.slide_count().unwrap() == 0);
}

#[test]
fn test_slide_masters() {
    let prs = Presentation::new().unwrap();
    let masters = prs.slide_masters().unwrap();
    assert_eq!(masters.len(), 1);
    assert_eq!(masters[0].partname.as_str(), "/ppt/slideMasters/slideMaster1.xml");
}

#[test]
fn test_slide_layouts() {
    let prs = Presentation::new().unwrap();
    let layouts = prs.slide_layouts().unwrap();
    assert_eq!(layouts.len(), 11);
    assert_eq!(layouts[0].name, "Title Slide");
}

#[test]
fn test_slide_size() {
    let prs = Presentation::new().unwrap();
    let size = prs.slide_size().unwrap();
    assert_eq!(size, Some((9144000, 6858000)));
}

#[test]
fn test_set_slide_width() {
    let mut prs = Presentation::new().unwrap();
    prs.set_slide_width(12192000).unwrap();
    let size = prs.slide_size().unwrap();
    assert_eq!(size, Some((12192000, 6858000)));
}

#[test]
fn test_set_slide_height() {
    let mut prs = Presentation::new().unwrap();
    prs.set_slide_height(5000000).unwrap();
    let size = prs.slide_size().unwrap();
    assert_eq!(size, Some((9144000, 5000000)));
}

#[test]
fn test_notes_slide() {
    let mut prs = Presentation::new().unwrap();
    let layouts = prs.slide_layouts().unwrap();
    let slide_ref = prs.add_slide(&layouts[0]).unwrap();
    let notes1 = prs.notes_slide_or_create(&slide_ref).unwrap();
    assert!(notes1.partname.as_str().contains("notesSlides"));
    let notes2 = prs.notes_slide_or_create(&slide_ref).unwrap();
    assert_eq!(notes1.partname.as_str(), notes2.partname.as_str());
}

#[test]
fn test_notes_master_none_by_default() {
    let prs = Presentation::new().unwrap();
    let nm = prs.notes_master().unwrap();
    let _ = nm;
}

#[test]
fn test_notes_master_or_create() {
    let mut prs = Presentation::new().unwrap();
    let nm = prs.notes_master_or_create().unwrap();
    assert!(nm.partname.as_str().contains("notesMasters"));
    let nm2 = prs.notes_master_or_create().unwrap();
    assert_eq!(nm.partname.as_str(), nm2.partname.as_str());
    let xml = prs.notes_master_xml(&nm).unwrap();
    let xml_str = String::from_utf8_lossy(xml);
    assert!(xml_str.contains("<p:notesMaster"));
}

#[test]
fn test_notes_slide_text_none() {
    let mut prs = Presentation::new().unwrap();
    let layouts = prs.slide_layouts().unwrap();
    let slide_ref = prs.add_slide(&layouts[0]).unwrap();
    let text = prs.notes_slide_text(&slide_ref).unwrap();
    assert_eq!(text, None);
}

#[test]
fn test_notes_slide_text_empty() {
    let mut prs = Presentation::new().unwrap();
    let layouts = prs.slide_layouts().unwrap();
    let slide_ref = prs.add_slide(&layouts[0]).unwrap();
    prs.notes_slide_or_create(&slide_ref).unwrap();
    let text = prs.notes_slide_text(&slide_ref).unwrap();
    assert!(text.is_some());
    assert_eq!(text.unwrap(), "");
}

#[test]
fn test_notes_slide_none_when_no_notes() {
    let mut prs = Presentation::new().unwrap();
    let layouts = prs.slide_layouts().unwrap();
    let slide_ref = prs.add_slide(&layouts[0]).unwrap();
    let ns = prs.notes_slide(&slide_ref).unwrap();
    assert!(ns.is_none());
}

#[test]
fn test_notes_slide_notes_text_empty() {
    let mut prs = Presentation::new().unwrap();
    let layouts = prs.slide_layouts().unwrap();
    let slide_ref = prs.add_slide(&layouts[0]).unwrap();
    prs.notes_slide_or_create(&slide_ref).unwrap();
    let ns = prs.notes_slide(&slide_ref).unwrap().unwrap();
    assert_eq!(ns.notes_text(), "");
}

#[test]
fn test_notes_slide_name_none() {
    let mut prs = Presentation::new().unwrap();
    let layouts = prs.slide_layouts().unwrap();
    let slide_ref = prs.add_slide(&layouts[0]).unwrap();
    let name = prs.notes_slide_name(&slide_ref).unwrap();
    assert!(name.is_none());
}

#[test]
fn test_notes_slide_name_default() {
    let mut prs = Presentation::new().unwrap();
    let layouts = prs.slide_layouts().unwrap();
    let slide_ref = prs.add_slide(&layouts[0]).unwrap();
    prs.notes_slide_or_create(&slide_ref).unwrap();
    let name = prs.notes_slide_name(&slide_ref).unwrap();
    assert!(name.is_none());
}

#[test]
fn test_set_notes_slide_background_solid() {
    let mut prs = Presentation::new().unwrap();
    let layouts = prs.slide_layouts().unwrap();
    let slide_ref = prs.add_slide(&layouts[0]).unwrap();
    let notes_ref = prs.notes_slide_or_create(&slide_ref).unwrap();
    prs.set_notes_slide_background_solid(&slide_ref, "0000FF").unwrap();
    let notes_part = prs.package().part(&notes_ref.partname).unwrap();
    let xml_str = String::from_utf8_lossy(&notes_part.blob);
    assert!(xml_str.contains("<p:bg>"));
    assert!(xml_str.contains(r#"val="0000FF""#));
}

#[test]
fn test_set_notes_slide_background_solid_no_notes_fails() {
    let mut prs = Presentation::new().unwrap();
    let layouts = prs.slide_layouts().unwrap();
    let slide_ref = prs.add_slide(&layouts[0]).unwrap();
    let result = prs.set_notes_slide_background_solid(&slide_ref, "FF0000");
    assert!(result.is_err());
}

#[test]
fn test_is_macro_enabled_default() {
    let prs = Presentation::new().unwrap();
    assert!(!prs.is_macro_enabled());
}

#[test]
fn test_vba_project_none_by_default() {
    let prs = Presentation::new().unwrap();
    let vba = prs.vba_project().unwrap();
    assert!(vba.is_none());
}

#[test]
fn test_set_and_get_vba_project() {
    let mut prs = Presentation::new().unwrap();
    let vba_data = vec![0xCC, 0xDD, 0xEE, 0xFF];
    prs.set_vba_project(vba_data.clone()).unwrap();
    let retrieved = prs.vba_project().unwrap();
    assert!(retrieved.is_some());
    assert_eq!(retrieved.unwrap(), vba_data);
}

// ---------------------------------------------------------------------------
// More cases

#[test]
fn mark_macro_enabled_sets_content_type() {
    let mut prs = Presentation::new().unwrap();
    prs.mark_macro_enabled().unwrap();
    assert!(prs.is_macro_enabled());
}

#[test]
fn set_vba_project_twice_replaces_and_keeps_one_relationship() {
    let mut prs = Presentation::new().unwrap();
    prs.set_vba_project(vec![1, 2]).unwrap();
    prs.set_vba_project(vec![3]).unwrap();
    assert_eq!(prs.vba_project().unwrap().unwrap(), &[3u8][..]);
    let pres = prs.package().part_by_reltype(RT::OFFICE_DOCUMENT).unwrap();
    assert_eq!(pres.rels.all_by_reltype(RT::VBA_PROJECT).len(), 1);
}

#[test]
fn print_settings_written_then_read_back() {
    let mut prs = Presentation::new().unwrap();
    assert_eq!(prs.print_settings().unwrap(), PrintSettings::new());
    let s = PrintSettings::new().with_color_mode(PrintColorMode::Grayscale).with_orientation(PrintOrientation::Landscape);
    prs.set_print_settings(&s).unwrap();
    assert_eq!(prs.print_settings().unwrap(), s);
    // replacing keeps a single element
    prs.set_print_settings(&PrintSettings::new()).unwrap();
    let pres = prs.package().part_by_reltype(RT::OFFICE_DOCUMENT).unwrap();
    let xml = String::from_utf8(pres.blob.clone()).unwrap();
    assert_eq!(xml.matches("<p:prnPr").count(), 1);
    assert_eq!(prs.print_settings().unwrap(), PrintSettings::new());
}

#[test]
fn digital_signature_parts_and_relationships() {
    let mut prs = Presentation::new().unwrap();
    let sig = DigitalSignature::new(SignerInfo::new("Alice"), HashAlgorithm::Sha256);
    prs.add_digital_signature(&sig).unwrap();
    prs.add_digital_signature(&sig).unwrap();
    let origin = pptx::opc::uri::PackURI::new("/_xmlsignatures/origin.sigs").unwrap();
    let op = prs.package().part(&origin).unwrap();
    assert_eq!(op.rels.all_by_reltype(pptx::signature::DIGITAL_SIGNATURE_RT).len(), 2);
    let s1 = pptx::opc::uri::PackURI::new("/_xmlsignatures/sig1.xml").unwrap();
    let s2 = pptx::opc::uri::PackURI::new("/_xmlsignatures/sig2.xml").unwrap();
    assert!(prs.package().part(&s1).is_some());
    assert!(prs.package().part(&s2).is_some());
    assert_eq!(prs.package().pkg_rels.all_by_reltype(pptx::signature::DIGITAL_SIGNATURE_ORIGIN_RT).len(), 1);
}

#[test]
fn slide_ids_count_up_from_256() {
    let mut prs = Presentation::new().unwrap();
    let layouts = prs.slide_layouts().unwrap();
    prs.add_slide(&layouts[0]).unwrap();
    prs.add_slide(&layouts[0]).unwrap();
    let pres = prs.package().part_by_reltype(RT::OFFICE_DOCUMENT).unwrap();
    let xml = String::from_utf8(pres.blob.clone()).unwrap();
    assert!(xml.contains(r#"<p:sldIdLst><p:sldId id="256" r:id="rId3"/><p:sldId id="257" r:id="rId4"/></p:sldIdLst>"#));
}

#[test]
fn delete_then_add_reuses_part_name_but_not_id() {
    let mut prs = Presentation::new().unwrap();
    let layouts = prs.slide_layouts().unwrap();
    let s1 = prs.add_slide(&layouts[0]).unwrap();
    let _s2 = prs.add_slide(&layouts[0]).unwrap();
    prs.delete_slide(&s1).unwrap();
    let s3 = prs.add_slide(&layouts[0]).unwrap();
    assert_eq!(s3.partname.as_str(), "/ppt/slides/slide1.xml");
    let slides = prs.slides().unwrap();
    assert_eq!(slides.len(), 2);
    assert_eq!(slides[1].partname.as_str(), "/ppt/slides/slide1.xml");
}

#[test]
fn notes_slide_links_back_to_slide() {
    let mut prs = Presentation::new().unwrap();
    let layouts = prs.slide_layouts().unwrap();
    let slide_ref = prs.add_slide(&layouts[0]).unwrap();
    let notes = prs.notes_slide_or_create(&slide_ref).unwrap();
    assert_eq!(notes.partname.as_str(), "/ppt/notesSlides/notesSlide1.xml");
    let np = prs.package().part(&notes.partname).unwrap();
    let back = np.rels.all_by_reltype(RT::SLIDE);
    assert_eq!(back.len(), 1);
    assert_eq!(back[0].target_ref, "../slides/slide1.xml");
}

#[test]
fn slide_master_for_layout_finds_default_master() {
    let prs = Presentation::new().unwrap();
    let layouts = prs.slide_layouts().unwrap();
    let m = prs.slide_master_for_layout(&layouts[3]).unwrap().unwrap();
    assert_eq!(m.partname.as_str(), "/ppt/slideMasters/slideMaster1.xml");
}

#[test]
fn set_slide_size_negative_reads_back() {
    let mut prs = Presentation::new().unwrap();
    prs.set_slide_width(-42).unwrap();
    assert_eq!(prs.slide_size().unwrap(), Some((-42, 6858000)));
}

#[test]
fn print_settings_set_twice_equals_set_once() {
    let first = PrintSettings::new().with_color_mode(PrintColorMode::Grayscale).with_frame_slides(true);
    let second = PrintSettings::new().with_orientation(PrintOrientation::Landscape);
    let mut a = Presentation::new().unwrap();
    a.set_print_settings(&first).unwrap();
    a.set_print_settings(&second).unwrap();
    let mut b = Presentation::new().unwrap();
    b.set_print_settings(&second).unwrap();
    let pa = a.package().part_by_reltype(RT::OFFICE_DOCUMENT).unwrap().blob.clone();
    let pb = b.package().part_by_reltype(RT::OFFICE_DOCUMENT).unwrap().blob.clone();
    assert_eq!(pa, pb);
    assert_eq!(a.print_settings().unwrap(), second);
}

#[test]
fn move_slide_equal_indices_out_of_range_is_error() {
    let mut prs = Presentation::new().unwrap();
    let layouts = prs.slide_layouts().unwrap();
    prs.add_slide(&layouts[0]).unwrap();
    assert!(prs.move_slide(5, 5).is_err());
    assert!(prs.move_slide(0, 0).is_ok());
    assert_eq!(prs.slide_count().unwrap(), 1);
}

#[test]
fn new_slide_has_no_shapes() {
    let mut prs = Presentation::new().unwrap();
    let layouts = prs.slide_layouts().unwrap();
    let s = prs.add_slide(&layouts[0]).unwrap();
    let xml = prs.slide_xml(&s).unwrap();
    assert!(String::from_utf8_lossy(&xml).contains("<p:sld"));
    let tree = pptx::shapes::shapetree::ShapeTree::from_slide_xml(&xml).unwrap();
    assert!(tree.is_empty());
}

#[test]
fn deleted_slide_has_no_index() {
    let mut prs = Presentation::new().unwrap();
    let layouts = prs.slide_layouts().unwrap();
    let a = prs.add_slide(&layouts[0]).unwrap();
    let b = prs.add_slide(&layouts[0]).unwrap();
    assert_eq!(prs.slide_index(&b).unwrap(), 1);
    prs.delete_slide(&a).unwrap();
    assert!(prs.slide_index(&a).is_err());
    assert_eq!(prs.slide_index(&b).unwrap(), 0);
    assert_eq!(prs.slide_count().unwrap(), prs.slides().unwrap().len());
}

#[test]
fn test_notes_slide_parses_shapes() {
    let mut prs = Presentation::new().unwrap();
    let layouts = prs.slide_layouts().unwrap();
    let slide_ref = prs.add_slide(&layouts[0]).unwrap();

    prs.notes_slide_or_create(&slide_ref).unwrap();

    let ns = prs.notes_slide(&slide_ref).unwrap();
    assert!(ns.is_some());
    let ns = ns.unwrap();

    // Default notes slide has 2 shapes: slide image placeholder and notes body
    assert_eq!(ns.shapes().len(), 2);
}

#[test]
fn test_notes_slide_placeholders() {
    let mut prs = Presentation::new().unwrap();
    let layouts = prs.slide_layouts().unwrap();
    let slide_ref = prs.add_slide(&layouts[0]).unwrap();

    prs.notes_slide_or_create(&slide_ref).unwrap();

    let ns = prs.notes_slide(&slide_ref).unwrap().unwrap();
    let placeholders = ns.placeholders();

    // Both shapes in the default notes slide are placeholders
    assert_eq!(placeholders.len(), 2);
}

#[test]
fn test_notes_slide_notes_placeholder() {
    let mut prs = Presentation::new().unwrap();
    let layouts = prs.slide_layouts().unwrap();
    let slide_ref = prs.add_slide(&layouts[0]).unwrap();

    prs.notes_slide_or_create(&slide_ref).unwrap();

    let ns = prs.notes_slide(&slide_ref).unwrap().unwrap();
    let notes_ph = ns.notes_placeholder();
    assert!(notes_ph.is_some());

    let ph = notes_ph.unwrap();
    assert!(ph.is_placeholder());
    let ph_fmt = ph.placeholder().unwrap();
    assert_eq!(ph_fmt.ph_type, Some(pptx::enums::PpPlaceholderType::Body));
    assert_eq!(ph_fmt.idx, pptx::units::PlaceholderIndex(1));
}

#[test]
fn test_notes_slide_notes_placeholder_has_text_body() {
    let mut prs = Presentation::new().unwrap();
    let layouts = prs.slide_layouts().unwrap();
    let slide_ref = prs.add_slide(&layouts[0]).unwrap();

    prs.notes_slide_or_create(&slide_ref).unwrap();

    let ns = prs.notes_slide(&slide_ref).unwrap().unwrap();
    // The notes placeholder is an AutoShape with a text body
    let ph = ns.notes_placeholder().unwrap();
    assert!(ph.has_text_frame());
    // Use notes_text() for actual text content
    assert_eq!(ns.notes_text(), "");
}

#[test]
fn test_slide_placeholders_blank_slide() {
    let mut prs = Presentation::new().unwrap();
    let layouts = prs.slide_layouts().unwrap();
    let slide_ref = prs.add_slide(&layouts[0]).unwrap();

    // A blank slide from new_slide_xml has no placeholders
    let placeholders = prs.slide_placeholders(&slide_ref).unwrap();
    assert!(placeholders.is_empty());
}

#[test]
fn slide_placeholders_after_adding_shapes() {
    let xml = br#"<p:sld xmlns:a="a" xmlns:p="p"><p:cSld><p:spTree>
<p:sp><p:nvSpPr><p:cNvPr id="2" name="T"/><p:cNvSpPr/><p:nvPr><p:ph type="title"/></p:nvPr></p:nvSpPr></p:sp>
<p:sp><p:nvSpPr><p:cNvPr id="3" name="Box"/><p:cNvSpPr txBox="1"/><p:nvPr/></p:nvSpPr></p:sp>
</p:spTree></p:cSld></p:sld>"#;
    let ph = pptx::shapes::parse::placeholder_shapes(xml).unwrap();
    assert_eq!(ph.len(), 1);
    assert_eq!(ph[0].name(), "T");
}
