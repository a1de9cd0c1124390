use pptx::enums::{PlaceholderOrientation, PlaceholderSize, PpPlaceholderType};
use pptx::shapes::action::ActionSetting;
use pptx::shapes::freeform::FreeformBuilder;
use pptx::shapes::names::shape_name_for_prst;
use pptx::shapes::placeholder::PlaceholderFormat;
use pptx::units::{PlaceholderIndex, RelationshipId};

#[test]
fn test_hyperlink_action_xml() {
    let action = ActionSetting::hyperlink("https://example.com");
    let xml = action.to_xml_string(Some("rId2"));
    assert!(xml.contains(r#"r:id="rId2""#));
    assert!(xml.starts_with("<a:hlinkClick"));
    assert!(xml.ends_with("/>"));
}

#[test]
fn test_hyperlink_with_tooltip_xml() {
    let action = ActionSetting::hyperlink_with_tooltip("https://example.com", "Click me");
    let xml = action.to_xml_string(Some("rId3"));
    assert!(xml.contains(r#"r:id="rId3""#));
    assert!(xml.contains(r#"tooltip="Click me""#));
}

#[test]
fn test_next_slide_action_xml() {
    let action = ActionSetting::next_slide();
    let xml = action.to_xml_string(None);
    assert!(xml.contains("ppaction://hlinkshowjump?jump=nextslide"));
}

#[test]
fn test_previous_slide_action_xml() {
    let action = ActionSetting::previous_slide();
    let xml = action.to_xml_string(None);
    assert!(xml.contains("ppaction://hlinkshowjump?jump=previousslide"));
}

#[test]
fn test_tooltip_escaping() {
    let action = ActionSetting::hyperlink_with_tooltip("https://example.com", "A & B <test>");
    let xml = action.to_xml_string(Some("rId1"));
    assert!(xml.contains(r#"tooltip="A &amp; B &lt;test&gt;""#));
}

#[test]
fn test_named_slide_action_xml() {
    let r_id = RelationshipId::try_from("rId5").unwrap();
    let action = ActionSetting::named_slide(&r_id);
    let xml = action.to_xml_string(None);
    assert!(xml.contains(r#"r:id="rId5""#));
    assert!(xml.contains(r#"action="ppaction://hlinksldjump""#));
}

#[test]
fn test_hover_action_xml() {
    let action = ActionSetting::next_slide();
    let xml = action.to_hover_xml_string(None);
    assert!(xml.starts_with("<a:hlinkHover"));
    assert!(xml.contains("nextslide"));
}

#[test]
fn test_hover_hyperlink_xml() {
    let action = ActionSetting::hyperlink("https://example.com");
    let xml = action.to_hover_xml_string(Some("rId3"));
    assert!(xml.starts_with("<a:hlinkHover"));
    assert!(xml.contains(r#"r:id="rId3""#));
}

#[test]
fn action_click_and_hover_differ_only_in_tag() {
    let action = ActionSetting::hyperlink_with_tooltip("https://example.com", "t");
    let click = action.to_xml_string(Some("rId9"));
    let hover = action.to_hover_xml_string(Some("rId9"));
    assert_eq!(click.replacen("<a:hlinkClick", "<a:hlinkHover", 1), hover);
}

#[test]
fn relationship_id_refuses_empty() {
    assert!(RelationshipId::try_from("").is_err());
    assert_eq!(RelationshipId::try_from("rId7").unwrap().as_str(), "rId7");
}

#[test]
fn test_freeform_triangle() {
    let mut builder = FreeformBuilder::new(0, 100, 200, 100);
    builder.line_to(100, 0).line_to(200, 100).close();
    let xml = builder.to_xml_string();
    assert!(xml.starts_with("<a:custGeom>"));
    assert!(xml.contains("<a:pathLst>"));
    assert!(xml.contains(r#"<a:path w="200" h="100">"#));
    assert!(xml.contains(r#"<a:moveTo><a:pt x="0" y="100"/></a:moveTo>"#));
    assert!(xml.contains(r#"<a:lnTo><a:pt x="100" y="0"/></a:lnTo>"#));
    assert!(xml.contains(r#"<a:lnTo><a:pt x="200" y="100"/></a:lnTo>"#));
    assert!(xml.contains("<a:close/>"));
    assert!(xml.ends_with("</a:custGeom>"));
}

#[test]
fn test_freeform_with_curve() {
    let mut builder = FreeformBuilder::new(0, 0, 500, 500);
    builder.curve_to(100, 200, 300, 200, 500, 0);
    let xml = builder.to_xml_string();
    assert!(xml.contains("<a:cubicBezTo>"));
    assert!(xml.contains(r#"<a:pt x="100" y="200"/>"#));
    assert!(xml.contains(r#"<a:pt x="300" y="200"/>"#));
    assert!(xml.contains(r#"<a:pt x="500" y="0"/>"#));
}

#[test]
fn test_freeform_move_to() {
    let mut builder = FreeformBuilder::new(0, 0, 100, 100);
    builder.line_to(50, 50).move_to(75, 0).line_to(100, 50);
    let xml = builder.to_xml_string();
    let move_to_count = xml.matches("<a:moveTo>").count();
    assert_eq!(move_to_count, 2);
}

#[test]
fn freeform_negative_coordinates_exact() {
    let builder = FreeformBuilder::new(-5, 7, 10, 20);
    assert_eq!(
        builder.to_xml_string(),
        "<a:custGeom><a:avLst/><a:gdLst/><a:ahLst/><a:cxnLst/><a:rect l=\"l\" t=\"t\" r=\"r\" b=\"b\"/><a:pathLst><a:path w=\"10\" h=\"20\"><a:moveTo><a:pt x=\"-5\" y=\"7\"/></a:moveTo></a:path></a:pathLst></a:custGeom>"
    );
}

#[test]
fn test_placeholder_type_conversion() {
    let ph = PlaceholderFormat { ph_type: Some(PpPlaceholderType::Title), idx: PlaceholderIndex(0), orient: None, sz: None };
    assert_eq!(ph.placeholder_type(), Some(PpPlaceholderType::Title));
}

#[test]
fn test_placeholder_type_center_title() {
    let ph = PlaceholderFormat { ph_type: Some(PpPlaceholderType::CenterTitle), idx: PlaceholderIndex(0), orient: None, sz: None };
    assert_eq!(ph.placeholder_type(), Some(PpPlaceholderType::CenterTitle));
}

#[test]
fn test_placeholder_type_none() {
    let ph = PlaceholderFormat { ph_type: None, idx: PlaceholderIndex(0), orient: None, sz: None };
    assert_eq!(ph.placeholder_type(), None);
}

#[test]
fn test_to_xml_string_basic() {
    let ph = PlaceholderFormat { ph_type: Some(PpPlaceholderType::Title), idx: PlaceholderIndex(0), orient: None, sz: None };
    assert_eq!(ph.to_xml_string(), r#"<p:ph type="title"/>"#);
}

#[test]
fn test_to_xml_string_with_idx() {
    let ph = PlaceholderFormat { ph_type: Some(PpPlaceholderType::Body), idx: PlaceholderIndex(1), orient: None, sz: None };
    assert_eq!(ph.to_xml_string(), r#"<p:ph type="body" idx="1"/>"#);
}

#[test]
fn test_to_xml_string_with_all_attrs() {
    let ph = PlaceholderFormat {
        ph_type: Some(PpPlaceholderType::Body),
        idx: PlaceholderIndex(2),
        orient: Some(PlaceholderOrientation::Vertical),
        sz: Some(PlaceholderSize::Half),
    };
    let xml = ph.to_xml_string();
    assert!(xml.contains(r#"type="body""#));
    assert!(xml.contains(r#"idx="2""#));
    assert!(xml.contains(r#"orient="vert""#));
    assert!(xml.contains(r#"sz="half""#));
}

#[test]
fn test_to_xml_string_no_type() {
    let ph = PlaceholderFormat { ph_type: None, idx: PlaceholderIndex(0), orient: None, sz: None };
    assert_eq!(ph.to_xml_string(), "<p:ph/>");
}

#[test]
fn placeholder_predicates() {
    let title = PlaceholderFormat { ph_type: Some(PpPlaceholderType::CenterTitle), idx: PlaceholderIndex(0), orient: None, sz: None };
    assert!(title.is_title());
    assert!(!title.is_body());
    let none = PlaceholderFormat { ph_type: None, idx: PlaceholderIndex(3), orient: None, sz: None };
    assert!(!none.is_title());
    assert!(!none.is_footer());
}

#[test]
fn test_shape_name_for_prst_common() {
    assert_eq!(shape_name_for_prst("rect"), "Rectangle");
    assert_eq!(shape_name_for_prst("ellipse"), "Oval");
    assert_eq!(shape_name_for_prst("roundRect"), "Rounded Rectangle");
    assert_eq!(shape_name_for_prst("diamond"), "Diamond");
    assert_eq!(shape_name_for_prst("cloud"), "Cloud");
    assert_eq!(shape_name_for_prst("heart"), "Heart");
}

#[test]
fn test_shape_name_for_prst_unknown() {
    assert_eq!(shape_name_for_prst("unknownShape"), "Freeform");
}

#[test]
fn placeholder_kind_queries() {
    let num = PlaceholderFormat { ph_type: Some(PpPlaceholderType::SlideNumber), idx: PlaceholderIndex(12), orient: None, sz: None };
    assert!(num.is_slide_number());
    assert!(!num.is_date());
    let date = PlaceholderFormat { ph_type: Some(PpPlaceholderType::Date), idx: PlaceholderIndex(10), orient: None, sz: None };
    assert!(date.is_date());
    assert!(!date.is_slide_number());
    assert!(!date.is_footer());
}
