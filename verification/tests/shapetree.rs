use pptx::shapes::shapetree::{
    insert_shape_xml, new_chart_graphic_frame_xml, new_connector_xml, new_connector_xml_with_flip, new_group_shape_xml,
    new_movie_xml, new_picture_xml, new_table_xml, new_textbox_xml,
};
use pptx::shapes::shapetree::new_autoshape_xml;
use pptx::units::{Emu, ShapeId};

#[test]
fn test_new_textbox_xml() {
    let xml = new_textbox_xml(ShapeId(5), "TextBox 4", Emu(914400), Emu(914400), Emu(2743200), Emu(457200));
    assert!(xml.contains(r#"id="5""#));
    assert!(xml.contains(r#"name="TextBox 4""#));
    assert!(xml.contains(r#"txBox="1""#));
    assert!(xml.contains(r#"x="914400""#));
}

#[test]
fn test_new_autoshape_xml() {
    let xml = new_autoshape_xml(ShapeId(6), "Oval 5", Emu(100000), Emu(200000), Emu(300000), Emu(400000), "ellipse");
    assert!(xml.contains(r#"prst="ellipse""#));
    assert!(xml.contains(r#"id="6""#));
}

#[test]
fn test_new_picture_xml() {
    let xml = new_picture_xml(ShapeId(7), "Picture 6", "A photo", "rId2", Emu(0), Emu(0), Emu(914400), Emu(914400));
    assert!(xml.contains(r#"r:embed="rId2""#));
    assert!(xml.contains(r#"descr="A photo""#));
}

#[test]
fn test_new_table_xml() {
    let xml = new_table_xml(ShapeId(8), "Table 7", 2, 3, Emu(914400), Emu(914400), Emu(2743200), Emu(914400));
    assert!(xml.contains("a:tbl"));
    assert!(xml.contains("a:tr"));
    assert!(xml.contains("a:tc"));
}

#[test]
fn test_new_connector_xml_with_flip() {
    let xml = new_connector_xml_with_flip(ShapeId(5), "Connector 1", Emu(100), Emu(200), Emu(300), Emu(400), "line", true, false);
    assert!(xml.contains(r#"flipH="1""#));
    assert!(!xml.contains(r#"flipV="1""#));
    assert!(xml.contains(r#"prst="line""#));
}

#[test]
fn test_new_connector_xml_with_flip_both() {
    let xml = new_connector_xml_with_flip(ShapeId(5), "Connector 1", Emu(100), Emu(200), Emu(300), Emu(400), "line", true, true);
    assert!(xml.contains(r#"flipH="1""#));
    assert!(xml.contains(r#"flipV="1""#));
}

#[test]
fn test_new_connector_xml_with_no_flip() {
    let xml = new_connector_xml_with_flip(ShapeId(5), "Connector 1", Emu(100), Emu(200), Emu(300), Emu(400), "line", false, false);
    assert!(!xml.contains("flipH"));
    assert!(!xml.contains("flipV"));
}

#[test]
fn test_new_group_shape_xml() {
    let xml = new_group_shape_xml(ShapeId(10), "Group 1", Emu(0), Emu(0), Emu(914400), Emu(914400));
    assert!(xml.contains(r#"id="10""#));
    assert!(xml.contains(r#"name="Group 1""#));
    assert!(xml.contains("<p:grpSp"));
    assert!(xml.contains("<a:chOff"));
    assert!(xml.contains("<a:chExt"));
}

#[test]
fn test_new_movie_xml() {
    let xml = new_movie_xml(ShapeId(5), "Movie 1", "rIdVideo", "rIdPoster", Emu(0), Emu(0), Emu(914400), Emu(914400));
    assert!(xml.contains(r#"id="5""#));
    assert!(xml.contains(r#"name="Movie 1""#));
    assert!(xml.contains(r#"r:link="rIdVideo""#));
    assert!(xml.contains(r#"r:embed="rIdPoster""#));
    assert!(xml.contains("a:videoFile"));
    assert!(xml.contains("noChangeAspect"));
    assert!(xml.contains(r#"prst="rect""#));
}

#[test]
fn table_grid_and_rows_are_exact() {
    let xml = new_table_xml(ShapeId(3), "T", 2, 3, Emu(0), Emu(0), Emu(3000), Emu(-1001));
    assert_eq!(xml.matches(r#"<a:gridCol w="1000"/>"#).count(), 3);
    // -1001 / 2 rounds toward zero
    assert_eq!(xml.matches(r#"<a:tr h="-500">"#).count(), 2);
    assert_eq!(xml.matches("<a:tc>").count(), 6);
    let empty = new_table_xml(ShapeId(3), "T", 0, 0, Emu(0), Emu(0), Emu(3000), Emu(100));
    assert!(empty.contains("<a:tblGrid></a:tblGrid></a:tbl>"));
}

#[test]
fn shape_xml_escapes_names_and_writes_negative_offsets() {
    let xml = new_textbox_xml(ShapeId(2), "a<b", Emu(-5), Emu(7), Emu(1), Emu(2));
    assert!(xml.contains(r#"name="a&lt;b""#));
    assert!(xml.contains(r#"<a:off x="-5" y="7"/><a:ext cx="1" cy="2"/>"#));
    let c = new_connector_xml(ShapeId(4), "C", Emu(1), Emu(2), Emu(3), Emu(4), "line");
    assert!(c.contains("<a:xfrm><a:off"));
    let g = new_chart_graphic_frame_xml(ShapeId(9), "Chart 1", "rId4", Emu(0), Emu(0), Emu(10), Emu(10));
    assert!(g.contains(r#"<c:chart xmlns:c="http://schemas.openxmlformats.org/drawingml/2006/chart" r:id="rId4"/>"#));
}

#[test]
fn insert_shape_xml_before_tree_end() {
    let slide = b"<p:sld><p:cSld><p:spTree><p:grpSpPr/></p:spTree></p:cSld></p:sld>";
    let out = insert_shape_xml(slide, "<p:sp/>").unwrap();
    assert_eq!(out, b"<p:sld><p:cSld><p:spTree><p:grpSpPr/><p:sp/></p:spTree></p:cSld></p:sld>".to_vec());
    assert!(insert_shape_xml(b"<p:sld/>", "<p:sp/>").is_err());
}
