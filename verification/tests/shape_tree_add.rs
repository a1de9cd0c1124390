use pptx::shapes::model::Shape;
use pptx::shapes::shapetree::ShapeTree;
use pptx::units::{Emu, ShapeId};

fn blank_slide_xml() -> Vec<u8> {
    pptx::slide::new_slide_xml()
}

#[test]
fn test_add_shape_rectangle() {
    let slide = blank_slide_xml();
    let updated = ShapeTree::add_shape(&slide, "rect", Emu(914400), Emu(914400), Emu(1828800), Emu(914400)).unwrap();

    let tree = ShapeTree::from_slide_xml(&updated).unwrap();
    assert_eq!(tree.len(), 1);
    let s = &tree.shapes[0];
    assert_eq!(s.shape_id(), ShapeId(1));
    assert!(s.name().starts_with("Rectangle"));
    assert_eq!(s.left(), Emu(914400));
    assert_eq!(s.width(), Emu(1828800));
}

#[test]
fn test_add_shape_oval() {
    let slide = blank_slide_xml();
    let updated = ShapeTree::add_shape(&slide, "ellipse", Emu(0), Emu(0), Emu(914400), Emu(914400)).unwrap();

    let tree = ShapeTree::from_slide_xml(&updated).unwrap();
    assert_eq!(tree.len(), 1);
    let s = &tree.shapes[0];
    assert!(s.name().starts_with("Oval"));
    if let Shape::AutoShape(a) = s {
        assert_eq!(a.prst_geom.as_deref(), Some("ellipse"));
    } else {
        panic!("Expected AutoShape");
    }
}

#[test]
fn test_add_multiple_shapes_increments_ids() {
    let slide = blank_slide_xml();
    let updated = ShapeTree::add_shape(&slide, "rect", Emu(0), Emu(0), Emu(100), Emu(100)).unwrap();
    let updated = ShapeTree::add_shape(&updated, "rect", Emu(200), Emu(200), Emu(100), Emu(100)).unwrap();

    let tree = ShapeTree::from_slide_xml(&updated).unwrap();
    assert_eq!(tree.len(), 2);
    assert_eq!(tree.shapes[0].shape_id(), ShapeId(1));
    assert_eq!(tree.shapes[1].shape_id(), ShapeId(2));
    assert_ne!(tree.shapes[0].name(), tree.shapes[1].name());
}

#[test]
fn tests_add_api_test_add_textbox() {
    let slide = blank_slide_xml();
    let updated = ShapeTree::add_textbox(&slide, Emu(100000), Emu(200000), Emu(2743200), Emu(457200)).unwrap();

    let tree = ShapeTree::from_slide_xml(&updated).unwrap();
    assert_eq!(tree.len(), 1);
    let s = &tree.shapes[0];
    assert!(s.name().starts_with("TextBox"));
    assert!(s.has_text_frame());
    if let Shape::AutoShape(a) = s {
        assert!(a.is_textbox);
    } else {
        panic!("Expected AutoShape (textbox)");
    }
}

#[test]
fn tests_add_api_test_add_picture() {
    let slide = blank_slide_xml();
    let updated = ShapeTree::add_picture(&slide, "rId2", Emu(0), Emu(0), Emu(914400), Emu(914400)).unwrap();

    let tree = ShapeTree::from_slide_xml(&updated).unwrap();
    assert_eq!(tree.len(), 1);
    let s = &tree.shapes[0];
    assert!(s.name().starts_with("Picture"));
    if let Shape::Picture(p) = s {
        assert_eq!(p.image_r_id.as_deref(), Some("rId2"));
    } else {
        panic!("Expected Picture shape");
    }
}

#[test]
fn tests_add_api_test_add_table() {
    let slide = blank_slide_xml();
    let updated = ShapeTree::add_table(&slide, 3, 4, Emu(914400), Emu(914400), Emu(4572000), Emu(1371600)).unwrap();

    let tree = ShapeTree::from_slide_xml(&updated).unwrap();
    assert_eq!(tree.len(), 1);
    let s = &tree.shapes[0];
    assert!(s.name().starts_with("Table"));
    assert!(s.has_table());
}

#[test]
fn tests_add_api_test_add_connector_straight() {
    let slide = blank_slide_xml();
    let updated = ShapeTree::add_connector(&slide, "line", Emu(100), Emu(200), Emu(500), Emu(600)).unwrap();

    let tree = ShapeTree::from_slide_xml(&updated).unwrap();
    assert_eq!(tree.len(), 1);
    let s = &tree.shapes[0];
    assert!(s.name().starts_with("Connector"));
    if let Shape::Connector(c) = s {
        assert_eq!(c.prst_geom.as_deref(), Some("line"));
        assert!(!c.flip_h);
        assert!(!c.flip_v);
        assert_eq!(c.left, Emu(100));
        assert_eq!(c.top, Emu(200));
        assert_eq!(c.width, Emu(400));
        assert_eq!(c.height, Emu(400));
    } else {
        panic!("Expected Connector shape");
    }
}

#[test]
fn tests_add_api_test_add_connector_with_flip() {
    let slide = blank_slide_xml();
    let updated = ShapeTree::add_connector(&slide, "line", Emu(500), Emu(600), Emu(100), Emu(200)).unwrap();

    let tree = ShapeTree::from_slide_xml(&updated).unwrap();
    assert_eq!(tree.len(), 1);
    if let Shape::Connector(c) = &tree.shapes[0] {
        assert!(c.flip_h);
        assert!(c.flip_v);
        assert_eq!(c.left, Emu(100));
        assert_eq!(c.top, Emu(200));
    } else {
        panic!("Expected Connector shape");
    }
}

#[test]
fn test_add_connector_elbow() {
    let slide = blank_slide_xml();
    let updated = ShapeTree::add_connector(&slide, "bentConnector3", Emu(0), Emu(0), Emu(1000), Emu(1000)).unwrap();

    let tree = ShapeTree::from_slide_xml(&updated).unwrap();
    if let Shape::Connector(c) = &tree.shapes[0] {
        assert_eq!(c.prst_geom.as_deref(), Some("bentConnector3"));
    } else {
        panic!("Expected Connector");
    }
}

#[test]
fn tests_add_api_test_add_group_shape() {
    let slide = blank_slide_xml();
    let updated = ShapeTree::add_group_shape(&slide, Emu(0), Emu(0), Emu(914400), Emu(914400)).unwrap();

    let tree = ShapeTree::from_slide_xml(&updated).unwrap();
    assert_eq!(tree.len(), 1);
    let s = &tree.shapes[0];
    assert!(s.name().starts_with("Group"));
    assert!(matches!(s, Shape::GroupShape(_)));
}

#[test]
fn test_add_mixed_shapes() {
    let slide = blank_slide_xml();
    let updated = ShapeTree::add_shape(&slide, "rect", Emu(0), Emu(0), Emu(100), Emu(100)).unwrap();
    let updated = ShapeTree::add_textbox(&updated, Emu(200), Emu(200), Emu(300), Emu(100)).unwrap();
    let updated = ShapeTree::add_picture(&updated, "rId3", Emu(400), Emu(400), Emu(200), Emu(200)).unwrap();

    let tree = ShapeTree::from_slide_xml(&updated).unwrap();
    assert_eq!(tree.len(), 3);
    assert_eq!(tree.shapes[0].shape_id(), ShapeId(1));
    assert_eq!(tree.shapes[1].shape_id(), ShapeId(2));
    assert_eq!(tree.shapes[2].shape_id(), ShapeId(3));
    assert!(matches!(&tree.shapes[0], Shape::AutoShape(_)));
    assert!(matches!(&tree.shapes[1], Shape::AutoShape(_)));
    assert!(matches!(&tree.shapes[2], Shape::Picture(_)));
}

#[test]
fn test_add_movie() {
    let slide = blank_slide_xml();
    let updated = ShapeTree::add_movie(&slide, "rIdVideo", "rIdPoster", Emu(0), Emu(0), Emu(914400), Emu(914400)).unwrap();

    let tree = ShapeTree::from_slide_xml(&updated).unwrap();
    assert_eq!(tree.len(), 1);
    let s = &tree.shapes[0];
    assert!(s.name().starts_with("Movie"));
    assert_eq!(s.shape_id(), ShapeId(1));
}

const TITLE_BODY: &[u8] = br#"<?xml version="1.0" encoding="UTF-8" standalone="yes"?>
<p:sld xmlns:a="http://schemas.openxmlformats.org/drawingml/2006/main" xmlns:r="http://schemas.openxmlformats.org/officeDocument/2006/relationships" xmlns:p="http://schemas.openxmlformats.org/presentationml/2006/main">
<p:cSld><p:spTree>
<p:nvGrpSpPr><p:cNvPr id="1" name=""/><p:cNvGrpSpPr/><p:nvPr/></p:nvGrpSpPr>
<p:grpSpPr/>
<p:sp>
  <p:nvSpPr><p:cNvPr id="2" name="Title 1"/><p:cNvSpPr/><p:nvPr><p:ph type="title"/></p:nvPr></p:nvSpPr>
  <p:spPr><a:xfrm><a:off x="0" y="0"/><a:ext cx="100" cy="100"/></a:xfrm></p:spPr>
  <p:txBody><a:bodyPr/><a:lstStyle/><a:p><a:endParaRPr/></a:p></p:txBody>
</p:sp>
<p:sp>
  <p:nvSpPr><p:cNvPr id="3" name="Body 2"/><p:cNvSpPr/><p:nvPr><p:ph type="body" idx="1"/></p:nvPr></p:nvSpPr>
  <p:spPr><a:xfrm><a:off x="0" y="0"/><a:ext cx="100" cy="100"/></a:xfrm></p:spPr>
  <p:txBody><a:bodyPr/><a:lstStyle/><a:p><a:endParaRPr/></a:p></p:txBody>
</p:sp>
</p:spTree></p:cSld></p:sld>"#;

#[test]
fn test_title_returns_title_placeholder() {
    let tree = ShapeTree::from_slide_xml(TITLE_BODY).unwrap();
    let title = tree.title();
    assert!(title.is_some());
    assert_eq!(title.unwrap().name(), "Title 1");
}

#[test]
fn test_title_returns_ctr_title() {
    let xml = br#"<?xml version="1.0" encoding="UTF-8" standalone="yes"?>
<p:sld xmlns:a="http://schemas.openxmlformats.org/drawingml/2006/main" xmlns:r="http://schemas.openxmlformats.org/officeDocument/2006/relationships" xmlns:p="http://schemas.openxmlformats.org/presentationml/2006/main">
<p:cSld><p:spTree>
<p:nvGrpSpPr><p:cNvPr id="1" name=""/><p:cNvGrpSpPr/><p:nvPr/></p:nvGrpSpPr>
<p:grpSpPr/>
<p:sp>
  <p:nvSpPr><p:cNvPr id="2" name="Center Title 1"/><p:cNvSpPr/><p:nvPr><p:ph type="ctrTitle"/></p:nvPr></p:nvSpPr>
  <p:spPr><a:xfrm><a:off x="0" y="0"/><a:ext cx="100" cy="100"/></a:xfrm></p:spPr>
  <p:txBody><a:bodyPr/><a:lstStyle/><a:p><a:endParaRPr/></a:p></p:txBody>
</p:sp>
</p:spTree></p:cSld></p:sld>"#;

    let tree = ShapeTree::from_slide_xml(xml).unwrap();
    let title = tree.title();
    assert!(title.is_some());
    assert_eq!(title.unwrap().name(), "Center Title 1");
}

#[test]
fn test_title_returns_none_when_no_title() {
    let slide = blank_slide_xml();
    let tree = ShapeTree::from_slide_xml(&slide).unwrap();
    assert!(tree.title().is_none());
}

#[test]
fn test_placeholders() {
    let xml = br#"<?xml version="1.0" encoding="UTF-8" standalone="yes"?>
<p:sld xmlns:a="http://schemas.openxmlformats.org/drawingml/2006/main" xmlns:r="http://schemas.openxmlformats.org/officeDocument/2006/relationships" xmlns:p="http://schemas.openxmlformats.org/presentationml/2006/main">
<p:cSld><p:spTree>
<p:nvGrpSpPr><p:cNvPr id="1" name=""/><p:cNvGrpSpPr/><p:nvPr/></p:nvGrpSpPr>
<p:grpSpPr/>
<p:sp>
  <p:nvSpPr><p:cNvPr id="2" name="Title 1"/><p:cNvSpPr/><p:nvPr><p:ph type="title"/></p:nvPr></p:nvSpPr>
  <p:spPr><a:xfrm><a:off x="0" y="0"/><a:ext cx="100" cy="100"/></a:xfrm></p:spPr>
  <p:txBody><a:bodyPr/><a:lstStyle/><a:p><a:endParaRPr/></a:p></p:txBody>
</p:sp>
<p:sp>
  <p:nvSpPr><p:cNvPr id="3" name="Body 2"/><p:cNvSpPr/><p:nvPr><p:ph type="body" idx="1"/></p:nvPr></p:nvSpPr>
  <p:spPr><a:xfrm><a:off x="0" y="0"/><a:ext cx="100" cy="100"/></a:xfrm></p:spPr>
  <p:txBody><a:bodyPr/><a:lstStyle/><a:p><a:endParaRPr/></a:p></p:txBody>
</p:sp>
<p:sp>
  <p:nvSpPr><p:cNvPr id="4" name="TextBox 3"/><p:cNvSpPr txBox="1"/><p:nvPr/></p:nvSpPr>
  <p:spPr><a:xfrm><a:off x="0" y="0"/><a:ext cx="100" cy="100"/></a:xfrm></p:spPr>
  <p:txBody><a:bodyPr/><a:lstStyle/><a:p><a:endParaRPr/></a:p></p:txBody>
</p:sp>
</p:spTree></p:cSld></p:sld>"#;

    let tree = ShapeTree::from_slide_xml(xml).unwrap();
    assert_eq!(tree.len(), 3);

    let placeholders = tree.placeholders();
    assert_eq!(placeholders.len(), 2);
    assert_eq!(placeholders[0].name(), "Title 1");
    assert_eq!(placeholders[1].name(), "Body 2");
}

#[test]
fn test_placeholders_empty_slide() {
    let slide = blank_slide_xml();
    let tree = ShapeTree::from_slide_xml(&slide).unwrap();
    let placeholders = tree.placeholders();
    assert!(placeholders.is_empty());
}

#[test]
fn add_shape_names_count_existing_prefix() {
    let slide = blank_slide_xml();
    let updated = ShapeTree::add_textbox(&slide, Emu(0), Emu(0), Emu(1), Emu(1)).unwrap();
    let updated = ShapeTree::add_textbox(&updated, Emu(0), Emu(0), Emu(1), Emu(1)).unwrap();
    let tree = ShapeTree::from_slide_xml(&updated).unwrap();
    assert_eq!(tree.shapes[0].name(), "TextBox 1");
    assert_eq!(tree.shapes[1].name(), "TextBox 2");
    assert_eq!(tree.count_shapes_with_prefix("TextBox"), 2);
    assert_eq!(tree.count_shapes_with_prefix("Rect"), 0);
}

#[test]
fn add_shape_without_tree_is_invalid() {
    let r = ShapeTree::add_textbox(b"<p:sld/>", Emu(0), Emu(0), Emu(1), Emu(1));
    assert!(matches!(r, Err(pptx::error::PptxError::InvalidXml(_))));
}
