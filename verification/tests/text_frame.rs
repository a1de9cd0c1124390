use pptx::error::PptxError;
use pptx::shapes::model::{AutoShape, GraphicFrame, Shape};
use pptx::shapes::parse::parse_shapes_from_slide_xml;
use pptx::shapes::text_frame::{parse_text_frame, AutoSize, TextFrame};
use pptx::theme::{theme_brightness, theme_brightness_from_xml};
use pptx::units::{Emu, ShapeId};

fn make_basic_shape() -> AutoShape {
    AutoShape::with_geometry(ShapeId(2), "Rectangle 1", Emu(914400), Emu(914400), Emu(1828800), Emu(914400), "rect")
}

#[test]
fn test_autoshape_with_text_frame() {
    let mut shape = make_basic_shape();
    let mut tf = TextFrame::new();
    tf.set_text("Hello World");
    shape.text_frame = Some(tf);

    let xml = shape.to_xml_string();
    assert!(xml.contains("<p:txBody>"));
    assert!(xml.contains("Hello World"));
}

#[test]
fn test_parse_text_frame_basic() {
    let xml = br#"<p:txBody><a:bodyPr wrap="square" lIns="91440" tIns="45720" rIns="91440" bIns="45720" anchor="ctr"/><a:lstStyle/><a:p><a:pPr algn="ctr"/><a:r><a:rPr lang="en-US" sz="1800" b="1"/><a:t>Hello World</a:t></a:r></a:p></p:txBody>"#;
    let tf = parse_text_frame(xml).unwrap();
    assert!(tf.is_some());
    let tf = tf.unwrap();
    assert!(tf.word_wrap);
    assert_eq!(tf.vertical_anchor.as_deref(), Some("ctr"));
    assert_eq!(tf.margin_left, Some(91440));
    assert_eq!(tf.paragraphs.len(), 1);
    let para = &tf.paragraphs[0];
    assert_eq!(para.alignment.as_deref(), Some("ctr"));
    assert_eq!(para.runs.len(), 1);
    assert_eq!(para.runs[0].text, "Hello World");
    assert_eq!(para.runs[0].font.bold, Some(true));
    assert_eq!(para.runs[0].font.size, Some(1800));
}

#[test]
fn test_parse_text_frame_multi_paragraph() {
    let xml = br#"<p:txBody><a:bodyPr/><a:lstStyle/><a:p><a:r><a:rPr lang="en-US"/><a:t>Line 1</a:t></a:r></a:p><a:p><a:r><a:rPr lang="en-US"/><a:t>Line 2</a:t></a:r></a:p></p:txBody>"#;
    let tf = parse_text_frame(xml).unwrap().unwrap();
    assert_eq!(tf.paragraphs.len(), 2);
    assert_eq!(tf.text(), "Line 1\nLine 2");
}

#[test]
fn test_parse_text_frame_with_font_color() {
    let xml = br#"<p:txBody><a:bodyPr/><a:lstStyle/><a:p><a:r><a:rPr lang="en-US" sz="2400" b="1" i="1" u="sng"><a:solidFill><a:srgbClr val="FF0000"/></a:solidFill><a:latin typeface="Arial"/></a:rPr><a:t>Styled</a:t></a:r></a:p></p:txBody>"#;
    let tf = parse_text_frame(xml).unwrap().unwrap();
    let font = &tf.paragraphs[0].runs[0].font;
    assert_eq!(font.bold, Some(true));
    assert_eq!(font.italic, Some(true));
    assert_eq!(font.size, Some(2400));
    assert_eq!(font.underline.as_deref(), Some("sng"));
    let c = font.color.clone().unwrap();
    assert_eq!((c.r, c.g, c.b), (255, 0, 0));
    assert_eq!(font.name.as_deref(), Some("Arial"));
}

#[test]
fn test_parse_text_frame_no_wrap() {
    let xml = br#"<p:txBody><a:bodyPr wrap="none"/><a:lstStyle/><a:p><a:endParaRPr lang="en-US"/></a:p></p:txBody>"#;
    let tf = parse_text_frame(xml).unwrap().unwrap();
    assert!(!tf.word_wrap);
}

#[test]
fn test_parse_text_frame_autofit() {
    let xml = br#"<p:txBody><a:bodyPr><a:normAutofit fontScale="80000"/></a:bodyPr><a:lstStyle/><a:p><a:endParaRPr lang="en-US"/></a:p></p:txBody>"#;
    let tf = parse_text_frame(xml).unwrap().unwrap();
    assert_eq!(tf.auto_size, AutoSize::TextToFitShape);
    assert_eq!(tf.font_scale, Some(80000));
}

#[test]
fn test_parse_text_frame_empty_body() {
    let xml =
        br#"<p:txBody><a:bodyPr/><a:lstStyle/><a:p><a:endParaRPr lang="en-US"/></a:p></p:txBody>"#;
    let tf = parse_text_frame(xml).unwrap().unwrap();
    assert_eq!(tf.paragraphs.len(), 1);
    assert_eq!(tf.text(), "");
}

#[test]
fn test_parse_text_frame_paragraph_level() {
    let xml = br#"<p:txBody><a:bodyPr/><a:lstStyle/><a:p><a:pPr lvl="2" algn="r"/><a:r><a:rPr lang="en-US"/><a:t>Indented</a:t></a:r></a:p></p:txBody>"#;
    let tf = parse_text_frame(xml).unwrap().unwrap();
    let para = &tf.paragraphs[0];
    assert_eq!(para.level, 2);
    assert_eq!(para.alignment.as_deref(), Some("r"));
}

#[test]
fn test_round_trip_text_frame() {
    let xml = br#"<p:txBody><a:bodyPr wrap="square" lIns="91440" tIns="45720" rIns="91440" bIns="45720" anchor="ctr"/><a:lstStyle/><a:p><a:pPr algn="ctr"/><a:r><a:rPr lang="en-US" sz="1800" b="1"><a:solidFill><a:srgbClr val="FF0000"/></a:solidFill><a:latin typeface="Arial"/></a:rPr><a:t>Hello</a:t></a:r></a:p></p:txBody>"#;
    let tf = parse_text_frame(xml).unwrap().unwrap();
    assert_eq!(tf.text(), "Hello");
    assert_eq!(tf.paragraphs[0].runs[0].font.size, Some(1800));
    assert_eq!(tf.paragraphs[0].runs[0].font.bold, Some(true));
    let c = tf.paragraphs[0].runs[0].font.color.clone().unwrap();
    assert_eq!((c.r, c.g, c.b), (255, 0, 0));
    assert_eq!(tf.paragraphs[0].runs[0].font.name.as_deref(), Some("Arial"));

    let generated = tf.to_xml_string();
    let tf2 = parse_text_frame(generated.as_bytes()).unwrap().unwrap();
    assert_eq!(tf2.text(), "Hello");
    assert_eq!(tf2.paragraphs[0].runs[0].font.bold, Some(true));
    assert_eq!(tf2.paragraphs[0].runs[0].font.size, Some(1800));
}

#[test]
fn text_frame_without_body_or_paragraph_is_none() {
    assert!(parse_text_frame(b"<p:txBody><a:lstStyle/></p:txBody>").unwrap().is_none());
    assert!(parse_text_frame(b"").unwrap().is_none());
}

#[test]
fn text_frame_number_errors() {
    let bad_inset = br#"<p:txBody><a:bodyPr lIns="wide"/></p:txBody>"#;
    assert!(matches!(parse_text_frame(bad_inset), Err(PptxError::InvalidXml(_))));
    let bad_level = br#"<p:txBody><a:bodyPr/><a:p><a:pPr lvl="-1"/></a:p></p:txBody>"#;
    assert!(matches!(parse_text_frame(bad_level), Err(PptxError::InvalidXml(_))));
}

#[test]
fn text_frame_attribute_error() {
    let bad = br#"<p:txBody><a:bodyPr anchor="a&bogus;"/></p:txBody>"#;
    assert_eq!(parse_text_frame(bad).err(), Some(PptxError::MalformedAttribute));
}

#[test]
fn text_frame_entities_line_breaks_and_props() {
    let xml = br#"<p:txBody><a:bodyPr rot="5400000"><a:spAutoFit/></a:bodyPr><a:p><a:pPr rtl="1"><a:defRPr sz="1200"><a:solidFill><a:srgbClr val="00FF00"/></a:solidFill></a:defRPr></a:pPr><a:r><a:rPr strike="sngStrike" baseline="30000"/><a:t>a &amp; b</a:t></a:r><a:br/><a:r><a:rPr baseline="-25000"><a:solidFill><a:schemeClr val="accent1"/></a:solidFill></a:rPr><a:t>c</a:t></a:r><a:endParaRPr lang="de-DE"/></a:p></p:txBody>"#;
    let tf = parse_text_frame(xml).unwrap().unwrap();
    assert_eq!(tf.rotation, Some(5400000));
    assert_eq!(tf.auto_size, AutoSize::ShapeToFitText);
    let p = &tf.paragraphs[0];
    assert_eq!(p.rtl.as_deref(), Some("1"));
    assert_eq!(p.runs.len(), 3);
    assert_eq!(p.runs[0].text, "a & b");
    assert_eq!(p.runs[0].font.strikethrough, Some(true));
    assert_eq!(p.runs[0].font.superscript, Some(true));
    assert!(p.runs[1].is_line_break);
    assert_eq!(p.runs[2].font.subscript, Some(true));
    assert_eq!(p.runs[2].font.theme_color.as_deref(), Some("accent1"));
    // endParaRPr replaces the default run formatting taken from defRPr
    let f = p.font.clone().unwrap();
    assert_eq!(f.language_id.as_deref(), Some("de-DE"));
    assert_eq!(f.size, None);
    assert_eq!(tf.text(), "a & b\u{b}c");
}

#[test]
fn set_text_makes_one_paragraph_per_line() {
    let mut tf = TextFrame::new();
    tf.set_text("one\ntwo\n");
    assert_eq!(tf.paragraphs.len(), 3);
    assert_eq!(tf.paragraphs[1].runs[0].text, "two");
    assert_eq!(tf.text(), "one\ntwo\n");
    let xml = tf.to_xml_string();
    assert_eq!(
        xml,
        "<p:txBody><a:bodyPr wrap=\"square\"/><a:lstStyle/><a:p><a:r><a:rPr/><a:t>one</a:t></a:r></a:p><a:p><a:r><a:rPr/><a:t>two</a:t></a:r></a:p><a:p><a:r><a:rPr/><a:t></a:t></a:r></a:p></p:txBody>"
    );
}

#[test]
fn group_keeps_its_own_id_and_name() {
    let xml = br#"<p:sld><p:cSld><p:spTree><p:grpSp><p:nvGrpSpPr><p:cNvPr id="10" name="Group 1"/></p:nvGrpSpPr><p:grpSpPr><a:xfrm><a:off x="0" y="0"/><a:ext cx="914400" cy="914400"/></a:xfrm></p:grpSpPr><p:sp><p:nvSpPr><p:cNvPr id="11" name="Rect 1"/></p:nvSpPr></p:sp></p:grpSp></p:spTree></p:cSld></p:sld>"#;
    let v = parse_shapes_from_slide_xml(xml).unwrap();
    assert_eq!(v.len(), 1);
    assert!(v[0].as_group().is_some());
    assert_eq!(v[0].shape_id(), ShapeId(10));
    assert_eq!(v[0].name(), "Group 1");
    assert_eq!(v[0].width(), Emu(914400));
}

#[test]
fn parsed_shape_keeps_and_reads_its_text() {
    let xml = br#"<p:sld><p:cSld><p:spTree><p:sp><p:nvSpPr><p:cNvPr id="2" name="Title 1"/></p:nvSpPr><p:spPr/><p:txBody><a:bodyPr/><a:lstStyle/><a:p><a:r><a:rPr lang="en-US" sz="2400"/><a:t>Hello World</a:t></a:r></a:p></p:txBody></p:sp></p:spTree></p:cSld></p:sld>"#;
    let v = parse_shapes_from_slide_xml(xml).unwrap();
    let a = v[0].as_autoshape().unwrap();
    let body = String::from_utf8(a.tx_body_xml.clone().unwrap()).unwrap();
    assert!(body.starts_with("<p:txBody>"));
    assert!(body.contains("Hello World"));
    let tf = a.text_frame.as_ref().unwrap();
    assert_eq!(tf.text(), "Hello World");
    assert_eq!(tf.paragraphs[0].runs[0].font.size, Some(2400));
    let out = a.to_xml_string();
    assert!(out.contains("Hello World"));
    assert!(out.contains("sz=\"2400\""));
}

#[test]
fn shape_kind_accessors() {
    let s = Shape::AutoShape(make_basic_shape());
    assert!(s.as_autoshape().is_some());
    assert!(s.as_picture().is_none());
    assert!(s.as_graphic_frame().is_none());
    assert!(s.as_connector().is_none());
    assert!(s.as_group().is_none());
    assert!(s.as_ole_object().is_none());
}

#[test]
fn graphic_frame_smartart() {
    let mut g = GraphicFrame {
        shape_id: ShapeId(5),
        name: "Diagram 1".to_string(),
        left: Emu(0),
        top: Emu(0),
        width: Emu(10),
        height: Emu(10),
        rotation: 0,
        has_table: false,
        has_chart: false,
        graphic_data_uri: None,
        placeholder: None,
        smartart_r_id: None,
    };
    assert!(!g.has_smartart());
    g.graphic_data_uri = Some("http://schemas.openxmlformats.org/drawingml/2006/diagram".to_string());
    assert!(g.has_smartart());
    g.graphic_data_uri = Some("http://schemas.openxmlformats.org/drawingml/2006/table".to_string());
    assert!(!g.has_smartart());
    g.smartart_r_id = Some("rId3".to_string());
    assert!(g.has_smartart());
}

#[test]
fn theme_brightness_tint_and_shade() {
    assert_eq!(theme_brightness(Some(60000), Some(40000)), Some(40000));
    assert_eq!(theme_brightness(Some(75000), None), Some(-25000));
    assert_eq!(theme_brightness(Some(100000), None), None);
    assert_eq!(theme_brightness(Some(60000), Some(0)), None);
    assert_eq!(theme_brightness(None, Some(40000)), None);
    assert_eq!(theme_brightness(Some(i64::MIN), None), Some(i64::MIN as i128 - 100000));
    let xml = br#"<a:lumMod val="75000"/></a:schemeClr>"#;
    assert_eq!(theme_brightness_from_xml(xml).unwrap(), Some(-25000));
}
