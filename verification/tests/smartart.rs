use pptx::opc::package::Part;
use pptx::opc::uri::PackURI;
use pptx::presentation::Presentation;
use pptx::smartart::{DIAGRAM_COLORS, DIAGRAM_DATA, DIAGRAM_DRAWING, DIAGRAM_LAYOUT, DIAGRAM_STYLE};

fn add_part(prs: &mut Presentation, name: &str, blob: &[u8]) {
    let part = Part::new(PackURI::new(name).unwrap(), "application/xml", blob.to_vec());
    prs.package_mut().put_part(part);
}

#[test]
fn smartart_data_collects_diagram_parts() {
    let mut prs = Presentation::new().unwrap();
    let layouts = prs.slide_layouts().unwrap();
    let slide_ref = prs.add_slide(&layouts[0]).unwrap();
    add_part(&mut prs, "/ppt/diagrams/data1.xml", b"<dgm:dataModel/>");
    add_part(&mut prs, "/ppt/diagrams/colors1.xml", b"<dgm:colorsDef/>");
    add_part(&mut prs, "/ppt/diagrams/layout1.xml", b"<dgm:layoutDef/>");
    let slide = prs.package_mut().part_mut(&slide_ref.partname).unwrap();
    let r_id = slide.rels.add_relationship(DIAGRAM_DATA, "../diagrams/data1.xml", false);
    slide.rels.add_relationship(DIAGRAM_COLORS, "../diagrams/colors1.xml", false);
    slide.rels.add_relationship(DIAGRAM_LAYOUT, "../diagrams/layout1.xml", false);
    // a style relationship whose part is missing
    slide.rels.add_relationship(DIAGRAM_STYLE, "../diagrams/quickStyle1.xml", false);

    let art = prs.smartart_data(&r_id, &slide_ref).unwrap().unwrap();
    assert_eq!(art.data_xml, b"<dgm:dataModel/>".to_vec());
    assert_eq!(art.colors_xml, Some(b"<dgm:colorsDef/>".to_vec()));
    assert_eq!(art.layout_xml, Some(b"<dgm:layoutDef/>".to_vec()));
    assert_eq!(art.style_xml, None);
    assert_eq!(art.drawing_xml, None);
}

#[test]
fn smartart_data_skips_missing_parts_for_later_ones() {
    let mut prs = Presentation::new().unwrap();
    let layouts = prs.slide_layouts().unwrap();
    let slide_ref = prs.add_slide(&layouts[0]).unwrap();
    add_part(&mut prs, "/ppt/diagrams/data1.xml", b"<d/>");
    add_part(&mut prs, "/ppt/diagrams/drawing2.xml", b"<dsp:drawing/>");
    let slide = prs.package_mut().part_mut(&slide_ref.partname).unwrap();
    let r_id = slide.rels.add_relationship(DIAGRAM_DATA, "../diagrams/data1.xml", false);
    slide.rels.add_relationship(DIAGRAM_DRAWING, "../diagrams/drawing1.xml", false);
    slide.rels.add_relationship(DIAGRAM_DRAWING, "../diagrams/drawing2.xml", false);

    let art = prs.smartart_data(&r_id, &slide_ref).unwrap().unwrap();
    assert_eq!(art.drawing_xml, Some(b"<dsp:drawing/>".to_vec()));
}

#[test]
fn smartart_data_unknown_relationship_is_none() {
    let mut prs = Presentation::new().unwrap();
    let layouts = prs.slide_layouts().unwrap();
    let slide_ref = prs.add_slide(&layouts[0]).unwrap();
    assert!(prs.smartart_data("rId99", &slide_ref).unwrap().is_none());
}

#[test]
fn smartart_data_missing_data_part_is_none() {
    let mut prs = Presentation::new().unwrap();
    let layouts = prs.slide_layouts().unwrap();
    let slide_ref = prs.add_slide(&layouts[0]).unwrap();
    let slide = prs.package_mut().part_mut(&slide_ref.partname).unwrap();
    let r_id = slide.rels.add_relationship(DIAGRAM_DATA, "../diagrams/data9.xml", false);
    assert!(prs.smartart_data(&r_id, &slide_ref).unwrap().is_none());
}

#[test]
fn smartart_data_external_target_is_error() {
    let mut prs = Presentation::new().unwrap();
    let layouts = prs.slide_layouts().unwrap();
    let slide_ref = prs.add_slide(&layouts[0]).unwrap();
    let slide = prs.package_mut().part_mut(&slide_ref.partname).unwrap();
    let r_id = slide.rels.add_relationship(DIAGRAM_DATA, "http://example.com/data.xml", true);
    assert!(prs.smartart_data(&r_id, &slide_ref).is_err());
}
