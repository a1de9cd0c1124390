use pptx::enums::{HandoutLayout, PrintColorMode, PrintOrientation, PrintWhat};
use pptx::print_settings::PrintSettings;

fn first_tag_content(xml: &[u8]) -> Option<String> {
    let mut reader = quick_xml::Reader::from_reader(xml);
    let mut buf = Vec::new();
    loop {
        match reader.read_event_into(&mut buf) {
            Ok(quick_xml::events::Event::Empty(ref e)) | Ok(quick_xml::events::Event::Start(ref e)) => {
                return Some(std::str::from_utf8(e).unwrap().to_string());
            }
            Ok(quick_xml::events::Event::Eof) => return None,
            Err(_) => return None,
            _ => {}
        }
        buf.clear();
    }
}

#[test]
fn test_default_print_settings() {
    let settings = PrintSettings::new();
    assert_eq!(settings.color_mode, PrintColorMode::Color);
    assert_eq!(settings.print_what, PrintWhat::Slides);
    assert_eq!(settings.handout_layout, None);
    assert_eq!(settings.orientation, PrintOrientation::Portrait);
    assert!(!settings.frame_slides);
}

#[test]
fn test_default_xml_minimal() {
    let settings = PrintSettings::new();
    let xml = settings.to_xml_string();
    assert_eq!(xml, "<p:prnPr/>");
}

#[test]
fn test_grayscale_xml() {
    let settings = PrintSettings::new().with_color_mode(PrintColorMode::Grayscale);
    let xml = settings.to_xml_string();
    assert!(xml.contains(r#"clrMode="gray""#));
}

#[test]
fn test_handout_layout_xml() {
    let settings = PrintSettings::new()
        .with_print_what(PrintWhat::Handouts)
        .with_handout_layout(HandoutLayout::Six);
    let xml = settings.to_xml_string();
    assert!(xml.contains(r#"prnWhat="handouts6""#));
}

#[test]
fn test_notes_xml() {
    let settings = PrintSettings::new().with_print_what(PrintWhat::Notes);
    let xml = settings.to_xml_string();
    assert!(xml.contains(r#"prnWhat="notes""#));
}

#[test]
fn test_landscape_xml() {
    let settings = PrintSettings::new().with_orientation(PrintOrientation::Landscape);
    let xml = settings.to_xml_string();
    assert!(xml.contains(r#"orient="landscape""#));
}

#[test]
fn test_frame_slides_xml() {
    let settings = PrintSettings::new().with_frame_slides(true);
    let xml = settings.to_xml_string();
    assert!(xml.contains(r#"frameSlides="1""#));
}

#[test]
fn test_all_options_xml() {
    let settings = PrintSettings::new()
        .with_color_mode(PrintColorMode::PureBlackWhite)
        .with_print_what(PrintWhat::Handouts)
        .with_handout_layout(HandoutLayout::Four)
        .with_orientation(PrintOrientation::Landscape)
        .with_frame_slides(true);
    let xml = settings.to_xml_string();
    assert!(xml.contains(r#"prnWhat="handouts4""#));
    assert!(xml.contains(r#"clrMode="pureBlkWht""#));
    assert!(xml.contains(r#"orient="landscape""#));
    assert!(xml.contains(r#"frameSlides="1""#));
}

#[test]
fn test_builder_pattern() {
    let settings = PrintSettings::new()
        .with_color_mode(PrintColorMode::Grayscale)
        .with_print_what(PrintWhat::Outline)
        .with_orientation(PrintOrientation::Landscape);
    assert_eq!(settings.color_mode, PrintColorMode::Grayscale);
    assert_eq!(settings.print_what, PrintWhat::Outline);
    assert_eq!(settings.orientation, PrintOrientation::Landscape);
}

#[test]
fn test_parse_from_xml_element() {
    let xml = br#"<p:prnPr prnWhat="handouts6" clrMode="gray" orient="landscape" frameSlides="1"/>"#;
    let e = first_tag_content(&xml[..]).unwrap();
    let settings = PrintSettings::from_xml_element(&e).unwrap();
    assert_eq!(settings.color_mode, PrintColorMode::Grayscale);
    assert_eq!(settings.print_what, PrintWhat::Handouts);
    assert_eq!(settings.handout_layout, Some(HandoutLayout::Six));
    assert_eq!(settings.orientation, PrintOrientation::Landscape);
    assert!(settings.frame_slides);
}

#[test]
fn test_parse_default_xml_element() {
    let xml = br#"<p:prnPr/>"#;
    let e = first_tag_content(&xml[..]).unwrap();
    let settings = PrintSettings::from_xml_element(&e).unwrap();
    assert_eq!(settings.color_mode, PrintColorMode::Color);
    assert_eq!(settings.print_what, PrintWhat::Slides);
    assert_eq!(settings.handout_layout, None);
    assert_eq!(settings.orientation, PrintOrientation::Portrait);
    assert!(!settings.frame_slides);
}

#[test]
fn test_roundtrip_xml() {
    let written = PrintSettings::new()
        .with_color_mode(PrintColorMode::Grayscale)
        .with_print_what(PrintWhat::Handouts)
        .with_handout_layout(HandoutLayout::Four)
        .with_orientation(PrintOrientation::Landscape)
        .with_frame_slides(true);
    let xml_str = written.to_xml_string();
    let e = first_tag_content(xml_str.as_bytes()).unwrap();
    let parsed = PrintSettings::from_xml_element(&e).unwrap();
    assert_eq!(parsed.color_mode, written.color_mode);
    assert_eq!(parsed.handout_layout, written.handout_layout);
    assert_eq!(parsed.orientation, written.orientation);
    assert_eq!(parsed.frame_slides, written.frame_slides);
    assert_eq!(parsed.print_what, PrintWhat::Handouts);
}

#[test]
fn print_settings_unknown_values_fall_back_to_defaults() {
    let s = PrintSettings::from_attr_values(Some("bogus"), Some("nothing"), Some("sideways"), Some("0"));
    assert_eq!(s, PrintSettings::new());
}

#[test]
fn print_settings_malformed_attribute_is_refused() {
    // an attribute without a value is refused by the XML reader
    let r = PrintSettings::from_xml_element("p:prnPr clrMode");
    assert!(r.is_err());
}

#[test]
fn default_print_settings_equal_new() {
    assert_eq!(PrintSettings::default(), PrintSettings::new());
    assert_eq!(PrintSettings::default().to_xml_string(), "<p:prnPr/>");
}
