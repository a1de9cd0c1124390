use pptx::presentation::Presentation;
use pptx::theme::{parse_hex_rgb, parse_theme_color_scheme};

#[test]
fn test_theme_colors() {
    let prs = Presentation::new().unwrap();
    let colors = prs.theme_colors().unwrap();
    // The default template should have a theme with colors
    assert!(colors.is_some());
    let scheme = colors.unwrap();
    // The default Office theme has dk1 = black (windowText)
    assert_eq!(scheme.dk1.r, 0);
    assert_eq!(scheme.dk1.g, 0);
    assert_eq!(scheme.dk1.b, 0);
    // lt1 should be white (window)
    assert_eq!(scheme.lt1.r, 255);
    assert_eq!(scheme.lt1.g, 255);
    assert_eq!(scheme.lt1.b, 255);
}

#[test]
fn default_theme_accent_and_link_colors() {
    let prs = Presentation::new().unwrap();
    let scheme = prs.theme_colors().unwrap().unwrap();
    assert_eq!((scheme.accent1.r, scheme.accent1.g, scheme.accent1.b), (0x4F, 0x81, 0xBD));
    assert_eq!((scheme.dk2.r, scheme.dk2.g, scheme.dk2.b), (0x1F, 0x49, 0x7D));
    assert_eq!((scheme.hlink.r, scheme.hlink.g, scheme.hlink.b), (0, 0, 255));
    assert_eq!((scheme.fol_hlink.r, scheme.fol_hlink.g, scheme.fol_hlink.b), (0x80, 0, 0x80));
}

#[test]
fn hex_rgb_parsing() {
    let c = parse_hex_rgb("1f497D").unwrap();
    assert_eq!((c.r, c.g, c.b), (0x1F, 0x49, 0x7D));
    assert!(parse_hex_rgb("12345").is_none());
    assert!(parse_hex_rgb("GG0000").is_none());
    assert!(parse_hex_rgb("#00000").is_none());
}

const SCHEME: &str = "<a:theme xmlns:a=\"x\"><a:themeElements><a:clrScheme name=\"T\">\
<a:dk1><a:sysClr val=\"windowText\" lastClr=\"010203\"/></a:dk1>\
<a:lt1><a:srgbClr val=\"FFFFFE\"/></a:lt1>\
<a:dk2><a:srgbClr val=\"000001\"/></a:dk2>\
<a:lt2><a:srgbClr val=\"000002\"/></a:lt2>\
<a:accent1><a:srgbClr val=\"000003\"><a:lumMod val=\"75000\"/></a:srgbClr></a:accent1>\
<a:accent2><a:srgbClr val=\"000004\"/></a:accent2>\
<a:accent3><a:srgbClr val=\"000005\"/></a:accent3>\
<a:accent4><a:srgbClr val=\"000006\"/></a:accent4>\
<a:accent5><a:srgbClr val=\"000007\"/></a:accent5>\
<a:accent6><a:srgbClr val=\"000008\"/></a:accent6>\
<a:hlink><a:srgbClr val=\"000009\"/></a:hlink>\
<a:folHlink><a:srgbClr val=\"00000A\"/></a:folHlink>\
</a:clrScheme></a:themeElements></a:theme>";

#[test]
fn parse_scheme_reads_all_slots() {
    let s = parse_theme_color_scheme(SCHEME.as_bytes()).unwrap().unwrap();
    assert_eq!((s.dk1.r, s.dk1.g, s.dk1.b), (1, 2, 3));
    assert_eq!((s.lt1.r, s.lt1.g, s.lt1.b), (255, 255, 254));
    assert_eq!(s.accent1.b, 3);
    assert_eq!(s.fol_hlink.b, 10);
}

#[test]
fn parse_scheme_with_missing_slot_is_none() {
    let xml = SCHEME.replace("<a:hlink><a:srgbClr val=\"000009\"/></a:hlink>", "");
    assert!(parse_theme_color_scheme(xml.as_bytes()).unwrap().is_none());
}

#[test]
fn parse_scheme_without_clr_scheme_is_none() {
    assert!(parse_theme_color_scheme(b"<a:theme><a:themeElements/></a:theme>").unwrap().is_none());
}

#[test]
fn parse_scheme_reader_error() {
    assert!(parse_theme_color_scheme(b"<a:theme><a:clrScheme></a:theme>").is_err());
}

#[test]
fn theme_colors_without_theme_part_is_none() {
    let mut prs = Presentation::new().unwrap();
    let uri = pptx::opc::uri::PackURI::new("/ppt/theme/theme1.xml").unwrap();
    prs.package_mut().remove_part(&uri);
    assert!(prs.theme_colors().unwrap().is_none());
}
