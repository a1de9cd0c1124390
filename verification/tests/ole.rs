use pptx::shapes::model::OleObject;
use pptx::units::{Emu, RelationshipId, ShapeId};

#[test]
fn test_ole_object_new() {
    let ole = OleObject::new("Excel.Sheet.12", vec![1, 2, 3], Emu(914400), Emu(914400), Emu(1828800), Emu(1371600));
    assert_eq!(ole.prog_id, "Excel.Sheet.12");
    assert_eq!(ole.data, vec![1, 2, 3]);
    assert_eq!(ole.left, Emu(914400));
}

#[test]
fn test_ole_object_xml() {
    let mut ole = OleObject::new("Excel.Sheet.12", vec![], Emu(914400), Emu(914400), Emu(1828800), Emu(1371600));
    ole.shape_id = ShapeId(5);
    ole.name = "Object 1".to_string();
    ole.r_id = Some(RelationshipId::try_from("rId3").unwrap());

    let xml = ole.to_xml_string();
    assert!(xml.contains("<p:graphicFrame>"));
    assert!(xml.contains(r#"id="5""#));
    assert!(xml.contains(r#"name="Object 1""#));
    assert!(xml.contains(r#"progId="Excel.Sheet.12""#));
    assert!(xml.contains(r#"r:id="rId3""#));
    assert!(xml.contains("presentationml/2006/ole"));
    assert!(xml.contains("</p:graphicFrame>"));
}

#[test]
fn test_ole_object_with_icon() {
    let mut ole = OleObject::new("Word.Document.12", vec![], Emu(0), Emu(0), Emu(914400), Emu(914400));
    ole.shape_id = ShapeId(10);
    ole.name = "Object 2".to_string();
    ole.r_id = Some(RelationshipId::try_from("rId4").unwrap());
    ole.icon_r_id = Some(RelationshipId::try_from("rId5").unwrap());

    let xml = ole.to_xml_string();
    assert!(xml.contains(r#"progId="Word.Document.12""#));
    assert!(xml.contains(r#"r:embed="rId5""#));
    assert!(xml.contains("<p:pic>"));
}

#[test]
fn test_ole_object_with_rotation() {
    let mut ole = OleObject::new("Package", vec![], Emu(0), Emu(0), Emu(914400), Emu(914400));
    ole.shape_id = ShapeId(1);
    ole.name = "Obj".to_string();
    let degrees: f64 = 45.0;
    ole.rotation = (degrees * 60000.0) as i64;

    let xml = ole.to_xml_string();
    assert!(xml.contains(r#"rot="2700000""#));
}

#[test]
fn test_ole_prog_ids() {
    let prog_ids = ["Excel.Sheet.12", "Excel.Chart.8", "Word.Document.12", "PowerPoint.Show.12", "AcroExch.Document", "Package"];
    for prog_id in prog_ids {
        let mut ole = OleObject::new(prog_id, vec![], Emu(0), Emu(0), Emu(100), Emu(100));
        ole.shape_id = ShapeId(1);
        ole.name = "Test".to_string();
        let xml = ole.to_xml_string();
        assert!(xml.contains(&format!(r#"progId="{}""#, prog_id)));
    }
}

#[test]
fn ole_object_exact_xml_without_icon() {
    let mut ole = OleObject::new("Package", vec![], Emu(1), Emu(2), Emu(3), Emu(4));
    ole.name = "O".to_string();
    assert_eq!(
        ole.to_xml_string(),
        "<p:graphicFrame><p:nvGraphicFramePr><p:cNvPr id=\"0\" name=\"O\"/>\
<p:cNvGraphicFramePr><a:graphicFrameLocks noGrp=\"1\" noChangeAspect=\"1\"/></p:cNvGraphicFramePr><p:nvPr/></p:nvGraphicFramePr>\
<p:xfrm><a:off x=\"1\" y=\"2\"/><a:ext cx=\"3\" cy=\"4\"/></p:xfrm><a:graphic>\
<a:graphicData uri=\"http://schemas.openxmlformats.org/presentationml/2006/ole\">\
<p:oleObj progId=\"Package\"><p:embed/></p:oleObj></a:graphicData></a:graphic></p:graphicFrame>"
    );
}
