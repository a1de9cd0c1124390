use pptx::error::PptxError;
use pptx::shapes::action::ActionSetting;
use pptx::shapes::model::{AutoShape, Connector, Picture, Shape};
use pptx::shapes::parse::parse_shapes_from_slide_xml;
use pptx::shapes::shapetree::ShapeTree;
use pptx::theme::theme_lum_values;
use pptx::units::{Emu, ShapeId};

fn make_basic_shape() -> AutoShape {
    AutoShape::with_geometry(ShapeId(2), "Rectangle 1", Emu(914400), Emu(914400), Emu(1828800), Emu(914400), "rect")
}

#[test]
fn test_basic_autoshape_xml() {
    let shape = make_basic_shape();
    let xml = shape.to_xml_string();
    assert!(xml.starts_with("<p:sp>"));
    assert!(xml.ends_with("</p:sp>"));
    assert!(xml.contains(r#"id="2""#));
    assert!(xml.contains(r#"name="Rectangle 1""#));
    assert!(xml.contains(r#"prst="rect""#));
    assert!(xml.contains(r#"x="914400""#));
    assert!(xml.contains(r#"cx="1828800""#));
}

#[test]
fn test_autoshape_textbox() {
    let mut shape = make_basic_shape();
    shape.is_textbox = true;
    let xml = shape.to_xml_string();
    assert!(xml.contains(r#"txBox="1""#));
}

#[test]
fn test_autoshape_with_rotation() {
    let mut shape = make_basic_shape();
    let degrees: f64 = 45.0;
    shape.rotation = (degrees * 60000.0) as i64;
    let xml = shape.to_xml_string();
    assert!(xml.contains(r#"rot="2700000""#));
}

#[test]
fn test_autoshape_with_adjustments() {
    let mut shape = make_basic_shape();
    shape.prst_geom = Some("roundRect".to_string());
    let adj: f64 = 0.25;
    shape.adjustments = vec![(adj * 100_000.0) as i64];
    let xml = shape.to_xml_string();
    assert!(xml.contains(r#"name="adj1""#));
    assert!(xml.contains(r#"fmla="val 25000""#));
}

#[test]
fn autoshape_xml_exact_text() {
    let shape = AutoShape::new(ShapeId(3), "A&B", Emu(1), Emu(-2), Emu(3), Emu(4));
    assert_eq!(
        shape.to_xml_string(),
        "<p:sp><p:nvSpPr><p:cNvPr id=\"3\" name=\"A&amp;B\"/><p:cNvSpPr/><p:nvPr/></p:nvSpPr>\
<p:spPr><a:xfrm><a:off x=\"1\" y=\"-2\"/><a:ext cx=\"3\" cy=\"4\"/></a:xfrm></p:spPr>\
<p:txBody><a:bodyPr/><a:lstStyle/><a:p><a:endParaRPr lang=\"en-US\"/></a:p></p:txBody></p:sp>"
    );
}

#[test]
fn autoshape_click_action_inside_cnvpr() {
    let mut shape = make_basic_shape();
    shape.click_action = Some(ActionSetting::next_slide());
    let xml = shape.to_xml_string();
    assert!(xml.contains("<a:hlinkClick"));
    assert!(xml.contains("nextslide"));
    assert!(xml.contains("</p:cNvPr>"));
}

fn make_basic_connector() -> Connector {
    Connector::line(ShapeId(5), "Connector 4", Emu(100), Emu(200), Emu(500), Emu(600))
}

#[test]
fn test_basic_connector_xml() {
    let conn = make_basic_connector();
    let xml = conn.to_xml_string();
    assert!(xml.starts_with("<p:cxnSp>"));
    assert!(xml.ends_with("</p:cxnSp>"));
    assert!(xml.contains(r#"id="5""#));
    assert!(xml.contains(r#"name="Connector 4""#));
    assert!(xml.contains(r#"prst="line""#));
}

#[test]
fn test_connector_flip() {
    let mut conn = make_basic_connector();
    conn.flip_h = true;
    let xml = conn.to_xml_string();
    assert!(xml.contains(r#"flipH="1""#));
}

#[test]
fn test_connector_with_connections() {
    let mut conn = make_basic_connector();
    conn.begin_shape_id = Some(ShapeId(2));
    conn.begin_cxn_idx = Some(0);
    conn.end_shape_id = Some(ShapeId(3));
    conn.end_cxn_idx = Some(2);
    let xml = conn.to_xml_string();
    assert!(xml.contains(r#"<a:stCxn id="2" idx="0"/>"#));
    assert!(xml.contains(r#"<a:endCxn id="3" idx="2"/>"#));
}

fn make_basic_picture() -> Picture {
    let mut pic = Picture::new(ShapeId(4), "Picture 3", Emu(0), Emu(0), Emu(914400), Emu(914400), "rId2");
    pic.description = Some("Test image".to_string());
    pic
}

#[test]
fn test_basic_picture_xml() {
    let pic = make_basic_picture();
    let xml = pic.to_xml_string();
    assert!(xml.starts_with("<p:pic>"));
    assert!(xml.ends_with("</p:pic>"));
    assert!(xml.contains(r#"id="4""#));
    assert!(xml.contains(r#"name="Picture 3""#));
    assert!(xml.contains(r#"descr="Test image""#));
    assert!(xml.contains(r#"r:embed="rId2""#));
    assert!(xml.contains("noChangeAspect"));
}

#[test]
fn test_picture_no_crop_no_src_rect() {
    let pic = make_basic_picture();
    let xml = pic.to_xml_string();
    assert!(!xml.contains("<a:srcRect"));
}

#[test]
fn test_picture_default_geometry_is_rect() {
    let pic = make_basic_picture();
    let xml = pic.to_xml_string();
    assert!(xml.contains(r#"prst="rect""#));
}

#[test]
fn picture_crop_in_hundred_thousandths() {
    let mut pic = make_basic_picture();
    pic.crop_left = 10000;
    pic.crop_top = 20000;
    pic.crop_right = 15000;
    pic.crop_bottom = 5000;
    let xml = pic.to_xml_string();
    assert!(xml.contains(r#"<a:srcRect l="10000" t="20000" r="15000" b="5000"/>"#));
}

#[test]
fn picture_clip_geometry_and_hover() {
    let mut pic = make_basic_picture();
    pic.auto_shape_type = Some("ellipse".to_string());
    pic.hover_action = Some(ActionSetting::hyperlink("https://example.com"));
    let xml = pic.to_xml_string();
    assert!(xml.contains(r#"prst="ellipse""#));
    assert!(!xml.contains(r#"prst="rect""#));
    assert!(xml.contains("<a:hlinkHover"));
}

const EMPTY_SLIDE: &[u8] = br#"<?xml version="1.0" encoding="UTF-8" standalone="yes"?>
<p:sld xmlns:a="http://schemas.openxmlformats.org/drawingml/2006/main" xmlns:r="http://schemas.openxmlformats.org/officeDocument/2006/relationships" xmlns:p="http://schemas.openxmlformats.org/presentationml/2006/main">
<p:cSld><p:spTree>
<p:nvGrpSpPr><p:cNvPr id="1" name=""/><p:cNvGrpSpPr/><p:nvPr/></p:nvGrpSpPr>
<p:grpSpPr/>
</p:spTree></p:cSld></p:sld>"#;

#[test]
fn test_parse_empty_slide() {
    let tree = ShapeTree::from_slide_xml(EMPTY_SLIDE).unwrap();
    assert_eq!(tree.len(), 0);
    assert!(tree.is_empty());
}

#[test]
fn test_parse_slide_with_shapes() {
    let xml = br#"<?xml version="1.0" encoding="UTF-8" standalone="yes"?>
<p:sld xmlns:a="http://schemas.openxmlformats.org/drawingml/2006/main" xmlns:r="http://schemas.openxmlformats.org/officeDocument/2006/relationships" xmlns:p="http://schemas.openxmlformats.org/presentationml/2006/main">
<p:cSld><p:spTree>
<p:nvGrpSpPr><p:cNvPr id="1" name=""/><p:cNvGrpSpPr/><p:nvPr/></p:nvGrpSpPr>
<p:grpSpPr/>
<p:sp>
  <p:nvSpPr><p:cNvPr id="2" name="Title 1"/><p:cNvSpPr><a:spLocks noGrp="1"/></p:cNvSpPr><p:nvPr><p:ph type="title"/></p:nvPr></p:nvSpPr>
  <p:spPr><a:xfrm><a:off x="457200" y="274638"/><a:ext cx="8229600" cy="1143000"/></a:xfrm></p:spPr>
  <p:txBody><a:bodyPr/><a:lstStyle/><a:p><a:endParaRPr/></a:p></p:txBody>
</p:sp>
<p:sp>
  <p:nvSpPr><p:cNvPr id="3" name="TextBox 2"/><p:cNvSpPr txBox="1"/><p:nvPr/></p:nvSpPr>
  <p:spPr><a:xfrm><a:off x="100000" y="200000"/><a:ext cx="300000" cy="400000"/></a:xfrm><a:prstGeom prst="rect"><a:avLst/></a:prstGeom></p:spPr>
  <p:txBody><a:bodyPr/><a:lstStyle/><a:p><a:endParaRPr/></a:p></p:txBody>
</p:sp>
</p:spTree></p:cSld></p:sld>"#;

    let tree = ShapeTree::from_slide_xml(xml).unwrap();
    assert_eq!(tree.len(), 2);

    let s0 = &tree.shapes[0];
    assert_eq!(s0.name(), "Title 1");
    assert_eq!(s0.shape_id(), ShapeId(2));
    assert!(s0.is_placeholder());
    assert_eq!(s0.left(), Emu(457200));
    assert_eq!(s0.width(), Emu(8229600));

    let s1 = &tree.shapes[1];
    assert_eq!(s1.name(), "TextBox 2");
    assert_eq!(s1.shape_id(), ShapeId(3));
    assert!(!s1.is_placeholder());
    assert!(s1.has_text_frame());
    if let Shape::AutoShape(a) = s1 {
        assert!(a.is_textbox);
        assert_eq!(a.prst_geom.as_deref(), Some("rect"));
    }
}

#[test]
fn test_parse_picture() {
    let xml = br#"<?xml version="1.0" encoding="UTF-8" standalone="yes"?>
<p:sld xmlns:a="http://schemas.openxmlformats.org/drawingml/2006/main" xmlns:r="http://schemas.openxmlformats.org/officeDocument/2006/relationships" xmlns:p="http://schemas.openxmlformats.org/presentationml/2006/main">
<p:cSld><p:spTree>
<p:nvGrpSpPr><p:cNvPr id="1" name=""/><p:cNvGrpSpPr/><p:nvPr/></p:nvGrpSpPr>
<p:grpSpPr/>
<p:pic>
  <p:nvPicPr><p:cNvPr id="4" name="Picture 3" descr="Test image"/><p:cNvPicPr/><p:nvPr/></p:nvPicPr>
  <p:blipFill><a:blip r:embed="rId2"/><a:stretch><a:fillRect/></a:stretch></p:blipFill>
  <p:spPr><a:xfrm><a:off x="0" y="0"/><a:ext cx="914400" cy="914400"/></a:xfrm></p:spPr>
</p:pic>
</p:spTree></p:cSld></p:sld>"#;

    let tree = ShapeTree::from_slide_xml(xml).unwrap();
    assert_eq!(tree.len(), 1);
    let s = &tree.shapes[0];
    assert_eq!(s.name(), "Picture 3");
    if let Shape::Picture(p) = s {
        assert_eq!(p.image_r_id.as_deref(), Some("rId2"));
        assert_eq!(p.description.as_deref(), Some("Test image"));
        assert_eq!(p.width, Emu(914400));
    } else {
        panic!("Expected Picture shape");
    }
}

#[test]
fn test_parse_connector() {
    let xml = br#"<?xml version="1.0" encoding="UTF-8" standalone="yes"?>
<p:sld xmlns:a="http://schemas.openxmlformats.org/drawingml/2006/main" xmlns:r="http://schemas.openxmlformats.org/officeDocument/2006/relationships" xmlns:p="http://schemas.openxmlformats.org/presentationml/2006/main">
<p:cSld><p:spTree>
<p:nvGrpSpPr><p:cNvPr id="1" name=""/><p:cNvGrpSpPr/><p:nvPr/></p:nvGrpSpPr>
<p:grpSpPr/>
<p:cxnSp>
  <p:nvCxnSpPr><p:cNvPr id="5" name="Connector 4"/><p:cNvCxnSpPr/><p:nvPr/></p:nvCxnSpPr>
  <p:spPr><a:xfrm flipH="1"><a:off x="100" y="200"/><a:ext cx="500" cy="600"/></a:xfrm><a:prstGeom prst="line"><a:avLst/></a:prstGeom></p:spPr>
</p:cxnSp>
</p:spTree></p:cSld></p:sld>"#;

    let tree = ShapeTree::from_slide_xml(xml).unwrap();
    assert_eq!(tree.len(), 1);
    if let Shape::Connector(c) = &tree.shapes[0] {
        assert_eq!(c.name, "Connector 4");
        assert!(c.flip_h);
        assert!(!c.flip_v);
        assert_eq!(c.prst_geom.as_deref(), Some("line"));
    } else {
        panic!("Expected Connector shape");
    }
}

#[test]
fn parse_graphic_frame_rotation_and_group() {
    let xml = br#"<p:sld xmlns:a="a" xmlns:r="r" xmlns:p="p"><p:cSld><p:spTree>
<p:graphicFrame><p:nvGraphicFramePr><p:cNvPr id="7" name="Table 1"/></p:nvGraphicFramePr>
<p:xfrm rot="5400000"><a:off x="1" y="2"/><a:ext cx="3" cy="4"/></p:xfrm>
<a:graphic><a:graphicData uri="http://schemas.openxmlformats.org/drawingml/2006/table"/></a:graphic></p:graphicFrame>
<p:grpSp><p:nvGrpSpPr><p:cNvPr id="9" name="Group 8"/></p:nvGrpSpPr></p:grpSp>
</p:spTree></p:cSld></p:sld>"#;
    let shapes = parse_shapes_from_slide_xml(xml).unwrap();
    assert_eq!(shapes.len(), 2);
    assert!(shapes[0].has_table());
    assert_eq!(shapes[0].rotation(), 5400000);
    assert_eq!(shapes[0].shape_id(), ShapeId(7));
    match &shapes[1] {
        Shape::GroupShape(g) => assert_eq!(g.name, "Group 8"),
        _ => panic!("Expected GroupShape"),
    }
}

#[test]
fn parse_shapes_errors() {
    let bad = b"<p:sld><p:cSld><p:spTree><p:sp></p:spTree></p:sld>";
    assert_eq!(parse_shapes_from_slide_xml(bad).err(), Some(PptxError::Xml));
    let bad_attr = b"<p:sld><p:cSld><p:spTree><p:sp><p:cNvPr id=\"1\" name=\"a&bogus;\"/></p:sp></p:spTree></p:cSld></p:sld>";
    assert_eq!(parse_shapes_from_slide_xml(bad_attr).err(), Some(PptxError::MalformedAttribute));
}

#[test]
fn written_shape_reads_back() {
    let shape = AutoShape::textbox(ShapeId(4), "Box", Emu(10), Emu(20), Emu(30), Emu(40));
    let xml = format!(
        "<p:sld xmlns:a=\"a\" xmlns:p=\"p\"><p:cSld><p:spTree>{}</p:spTree></p:cSld></p:sld>",
        shape.to_xml_string()
    );
    let shapes = parse_shapes_from_slide_xml(xml.as_bytes()).unwrap();
    assert_eq!(shapes.len(), 1);
    match &shapes[0] {
        Shape::AutoShape(a) => {
            assert_eq!(a.name, "Box");
            assert_eq!(a.shape_id, ShapeId(4));
            assert!(a.is_textbox);
            assert_eq!((a.left, a.top, a.width, a.height), (Emu(10), Emu(20), Emu(30), Emu(40)));
            assert_eq!(a.prst_geom.as_deref(), Some("rect"));
            assert!(a.has_text_frame());
        },
        _ => panic!("Expected AutoShape"),
    }
}

#[test]
fn lum_values_of_theme_color() {
    let xml = br#"<a:lumMod val="75000"/><a:lumOff val="25000"/></a:schemeClr><a:lumMod val="1"/>"#;
    assert_eq!(theme_lum_values(xml), Ok((Some(75000), Some(25000))));
    let shade = br#"<a:lumMod val="50000"></a:lumMod></a:schemeClr>"#;
    assert_eq!(theme_lum_values(shade), Ok((Some(50000), None)));
    assert_eq!(theme_lum_values(b"</a:schemeClr>"), Ok((None, None)));
    assert_eq!(theme_lum_values(br#"<a:lumOff val="x"/></a:schemeClr>"#), Ok((None, None)));
}

#[test]
fn shape_tree_title_placeholders_and_max_id() {
    let xml = br#"<p:sld xmlns:a="a" xmlns:p="p"><p:cSld><p:spTree>
<p:sp><p:nvSpPr><p:cNvPr id="5" name="Body"/><p:cNvSpPr/><p:nvPr><p:ph type="body" idx="1"/></p:nvPr></p:nvSpPr></p:sp>
<p:sp><p:nvSpPr><p:cNvPr id="9" name="Title"/><p:cNvSpPr/><p:nvPr><p:ph type="ctrTitle"/></p:nvPr></p:nvSpPr></p:sp>
<p:cxnSp><p:nvCxnSpPr><p:cNvPr id="3" name="Line"/></p:nvCxnSpPr></p:cxnSp>
</p:spTree></p:cSld></p:sld>"#;
    let tree = ShapeTree::from_slide_xml(xml).unwrap();
    assert_eq!(tree.len(), 3);
    assert_eq!(tree.max_shape_id(), ShapeId(9));
    assert_eq!(tree.title().unwrap().name(), "Title");
    let ph = tree.placeholders();
    assert_eq!(ph.len(), 2);
    assert_eq!(ph[0].name(), "Body");
    assert_eq!(ph[1].name(), "Title");
    let empty = ShapeTree::from_slide_xml(EMPTY_SLIDE).unwrap();
    assert_eq!(empty.max_shape_id(), ShapeId(0));
    assert!(empty.title().is_none());
}

fn hundred_thousandths(v: f64) -> i64 {
    (v * 100_000.0) as i64
}

#[test]
fn test_autoshape_with_click_action() {
    let mut shape = make_basic_shape();
    shape.set_click_action(ActionSetting::next_slide());
    let xml = shape.to_xml_string();
    assert!(xml.contains("<a:hlinkClick"));
    assert!(xml.contains("nextslide"));
}

#[test]
fn test_autoshape_with_hover_action() {
    let mut shape = make_basic_shape();
    shape.set_hover_action(ActionSetting::hyperlink("https://example.com"));
    let xml = shape.to_xml_string();
    assert!(xml.contains("<a:hlinkHover"));
}

#[test]
fn test_autoshape_with_click_and_hover() {
    let mut shape = make_basic_shape();
    shape.set_click_action(ActionSetting::next_slide());
    shape.set_hover_action(ActionSetting::hyperlink("https://example.com"));
    let xml = shape.to_xml_string();
    assert!(xml.contains("<a:hlinkClick"));
    assert!(xml.contains("<a:hlinkHover"));
}

fn make_basic_connector_500() -> Connector {
    Connector::line(ShapeId(5), "Connector 4", Emu(100), Emu(200), Emu(500), Emu(600))
}

#[test]
fn test_connector_begin_end_no_flip() {
    let conn = make_basic_connector_500();
    assert_eq!(conn.begin_x(), Emu(100));
    assert_eq!(conn.begin_y(), Emu(200));
    assert_eq!(conn.end_x(), Emu(600));
    assert_eq!(conn.end_y(), Emu(800));
}

#[test]
fn test_connector_begin_end_flip_h() {
    let mut conn = make_basic_connector_500();
    conn.flip_h = true;
    assert_eq!(conn.begin_x(), Emu(600));
    assert_eq!(conn.begin_y(), Emu(200));
    assert_eq!(conn.end_x(), Emu(100));
    assert_eq!(conn.end_y(), Emu(800));
}

#[test]
fn test_connector_begin_end_flip_v() {
    let mut conn = make_basic_connector_500();
    conn.flip_v = true;
    assert_eq!(conn.begin_x(), Emu(100));
    assert_eq!(conn.begin_y(), Emu(800));
    assert_eq!(conn.end_x(), Emu(600));
    assert_eq!(conn.end_y(), Emu(200));
}

#[test]
fn test_connector_begin_end_flip_both() {
    let mut conn = make_basic_connector_500();
    conn.flip_h = true;
    conn.flip_v = true;
    assert_eq!(conn.begin_x(), Emu(600));
    assert_eq!(conn.begin_y(), Emu(800));
    assert_eq!(conn.end_x(), Emu(100));
    assert_eq!(conn.end_y(), Emu(200));
}

#[test]
fn test_picture_with_crop() {
    let mut pic = make_basic_picture();
    pic.set_crop(hundred_thousandths(0.1), hundred_thousandths(0.2), hundred_thousandths(0.15), hundred_thousandths(0.05)).unwrap();
    let xml = pic.to_xml_string();
    assert!(xml.contains("<a:srcRect"));
    assert!(xml.contains(r#"l="10000""#));
    assert!(xml.contains(r#"t="20000""#));
    assert!(xml.contains(r#"r="15000""#));
    assert!(xml.contains(r#"b="5000""#));
}

#[test]
fn test_picture_with_hover_action() {
    let mut pic = make_basic_picture();
    pic.set_hover_action(ActionSetting::hyperlink("https://example.com"));
    let xml = pic.to_xml_string();
    assert!(xml.contains("<a:hlinkHover"));
}

#[test]
fn test_picture_with_auto_shape_type() {
    let mut pic = make_basic_picture();
    pic.set_auto_shape_type("ellipse");
    let xml = pic.to_xml_string();
    assert!(xml.contains(r#"prst="ellipse""#));
    assert!(!xml.contains(r#"prst="rect""#));
}

#[test]
fn test_picture_with_rounded_rect_mask() {
    let mut pic = make_basic_picture();
    pic.set_auto_shape_type("roundRect");
    let xml = pic.to_xml_string();
    assert!(xml.contains(r#"prst="roundRect""#));
}

#[test]
fn test_set_crop_boundary_values() {
    let mut pic = make_basic_picture();
    assert!(pic.set_crop(hundred_thousandths(0.0), hundred_thousandths(0.0), hundred_thousandths(0.0), hundred_thousandths(0.0)).is_ok());
    assert!(pic.set_crop(hundred_thousandths(1.0), hundred_thousandths(1.0), hundred_thousandths(1.0), hundred_thousandths(1.0)).is_ok());
}

#[test]
fn test_set_crop_negative_left() {
    let mut pic = make_basic_picture();
    assert!(pic.set_crop(hundred_thousandths(-0.1), 0, 0, 0).is_err());
}

#[test]
fn test_set_crop_over_one_right() {
    let mut pic = make_basic_picture();
    assert!(pic.set_crop(0, 0, hundred_thousandths(1.1), 0).is_err());
}

#[test]
fn test_set_crop_negative_top() {
    let mut pic = make_basic_picture();
    assert!(pic.set_crop(0, hundred_thousandths(-0.5), 0, 0).is_err());
}

#[test]
fn test_set_crop_over_one_bottom() {
    let mut pic = make_basic_picture();
    assert!(pic.set_crop(0, 0, 0, hundred_thousandths(2.0)).is_err());
}

#[test]
fn test_set_crop_left_individual() {
    let mut pic = make_basic_picture();
    pic.set_crop_left(hundred_thousandths(0.25)).unwrap();
    let xml = pic.to_xml_string();
    assert!(xml.contains(r#"l="25000""#));
    assert!(!xml.contains(r#" t="#));
}

#[test]
fn test_set_crop_top_individual() {
    let mut pic = make_basic_picture();
    pic.set_crop_top(hundred_thousandths(0.3)).unwrap();
    let xml = pic.to_xml_string();
    assert!(xml.contains(r#"t="30000""#));
}

#[test]
fn test_set_crop_right_individual() {
    let mut pic = make_basic_picture();
    pic.set_crop_right(hundred_thousandths(0.5)).unwrap();
    let xml = pic.to_xml_string();
    assert!(xml.contains(r#"r="50000""#));
}

#[test]
fn test_set_crop_bottom_individual() {
    let mut pic = make_basic_picture();
    pic.set_crop_bottom(hundred_thousandths(0.1)).unwrap();
    let xml = pic.to_xml_string();
    assert!(xml.contains(r#"b="10000""#));
}

#[test]
fn test_set_crop_left_invalid() {
    let mut pic = make_basic_picture();
    assert!(pic.set_crop_left(hundred_thousandths(-0.1)).is_err());
    assert!(pic.set_crop_left(hundred_thousandths(1.5)).is_err());
}

#[test]
fn test_set_crop_top_invalid() {
    let mut pic = make_basic_picture();
    assert!(pic.set_crop_top(hundred_thousandths(-0.01)).is_err());
    assert!(pic.set_crop_top(hundred_thousandths(1.01)).is_err());
}

#[test]
fn test_set_crop_right_invalid() {
    let mut pic = make_basic_picture();
    assert!(pic.set_crop_right(hundred_thousandths(-1.0)).is_err());
    assert!(pic.set_crop_right(hundred_thousandths(2.0)).is_err());
}

#[test]
fn test_set_crop_bottom_invalid() {
    let mut pic = make_basic_picture();
    assert!(pic.set_crop_bottom(hundred_thousandths(-0.5)).is_err());
    assert!(pic.set_crop_bottom(hundred_thousandths(100.0)).is_err());
}

#[test]
fn test_individual_setters_combine_in_xml() {
    let mut pic = make_basic_picture();
    pic.set_crop_left(hundred_thousandths(0.1)).unwrap();
    pic.set_crop_top(hundred_thousandths(0.2)).unwrap();
    pic.set_crop_right(hundred_thousandths(0.15)).unwrap();
    pic.set_crop_bottom(hundred_thousandths(0.05)).unwrap();
    let xml = pic.to_xml_string();
    assert!(xml.contains("<a:srcRect"));
    assert!(xml.contains(r#"l="10000""#));
    assert!(xml.contains(r#"t="20000""#));
    assert!(xml.contains(r#"r="15000""#));
    assert!(xml.contains(r#"b="5000""#));
}

#[test]
fn set_crop_refused_leaves_picture_unchanged() {
    let mut pic = make_basic_picture();
    pic.set_crop_left(5000).unwrap();
    assert_eq!(pic.set_crop(1, 2, 3, 100001), Err(PptxError::InvalidValue("a crop value must be from 0 to 100000".to_string())));
    assert_eq!(pic.crop_left, 5000);
    assert_eq!(pic.crop_bottom, 0);
}
