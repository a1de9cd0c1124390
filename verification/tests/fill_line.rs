use pptx::error::PptxError;
use pptx::shapes::color::{parse_color, ColorFormat};
use pptx::shapes::fill::{parse_fill, parse_gradient, parse_line, parse_sp_pr, FillFormat};

fn rgb_of(c: &ColorFormat) -> (u8, u8, u8) {
    match c {
        ColorFormat::Rgb(x) => (x.r, x.g, x.b),
        _ => panic!("Expected RGB color"),
    }
}

#[test]
fn test_parse_solid_fill_rgb() {
    let xml = br#"<a:spPr><a:solidFill><a:srgbClr val="FF0000"/></a:solidFill></a:spPr>"#;
    let fill = parse_fill(xml).unwrap();
    assert!(fill.is_some());
    match fill.unwrap() {
        FillFormat::Solid(c) => assert_eq!(rgb_of(&c), (255, 0, 0)),
        _ => panic!("Expected Solid fill"),
    }
}

#[test]
fn test_parse_no_fill() {
    let xml = br#"<a:spPr><a:noFill/></a:spPr>"#;
    let fill = parse_fill(xml).unwrap();
    assert!(matches!(fill, Some(FillFormat::NoFill)));
}

#[test]
fn test_parse_gradient_fill() {
    let xml = br#"<a:spPr><a:gradFill><a:gsLst><a:gs pos="0"><a:srgbClr val="FF0000"/></a:gs><a:gs pos="100000"><a:srgbClr val="0000FF"/></a:gs></a:gsLst><a:lin ang="16200000" scaled="0"/></a:gradFill></a:spPr>"#;
    let fill = parse_fill(xml).unwrap();
    assert!(fill.is_some());
    match fill.unwrap() {
        FillFormat::Gradient(gf) => {
            assert_eq!(gf.stops.len(), 2);
            assert_eq!(gf.stops[0].position, 0);
            assert_eq!(gf.stops[1].position, 100000);
            assert!(gf.angle.is_some());
            assert_eq!(gf.angle, Some(16200000));
            assert_eq!(rgb_of(&gf.stops[1].color), (0, 0, 255));
        }
        _ => panic!("Expected Gradient fill"),
    }
}

#[test]
fn test_parse_solid_fill_scheme_color() {
    let xml = br#"<a:spPr><a:solidFill><a:schemeClr val="accent1"/></a:solidFill></a:spPr>"#;
    let fill = parse_fill(xml).unwrap();
    assert!(fill.is_some());
    match fill.unwrap() {
        FillFormat::Solid(ColorFormat::Theme(tc)) => {
            assert_eq!(tc.theme_color, "accent1");
            assert!(tc.brightness.is_none());
        }
        _ => panic!("Expected Theme color"),
    }
}

#[test]
fn test_parse_line_solid() {
    let xml = br#"<a:ln w="12700"><a:solidFill><a:srgbClr val="000000"/></a:solidFill></a:ln>"#;
    let line = parse_line(xml).unwrap();
    assert!(line.is_some());
    let l = line.unwrap();
    assert_eq!(l.width, Some(12700));
    assert!(l.color.is_some());
    assert!(l.fill.is_some());
}

#[test]
fn test_parse_line_with_dash() {
    let xml = br#"<a:ln w="25400"><a:solidFill><a:srgbClr val="FF0000"/></a:solidFill><a:prstDash val="dash"/></a:ln>"#;
    let line = parse_line(xml).unwrap();
    assert!(line.is_some());
    let l = line.unwrap();
    assert_eq!(l.width, Some(25400));
    assert_eq!(l.dash_style.as_deref(), Some("dash"));
}

#[test]
fn test_parse_sp_pr() {
    let xml = br#"<p:spPr><a:xfrm><a:off x="0" y="0"/><a:ext cx="100" cy="100"/></a:xfrm><a:prstGeom prst="rect"><a:avLst/></a:prstGeom><a:solidFill><a:srgbClr val="00FF00"/></a:solidFill><a:ln w="12700"><a:solidFill><a:srgbClr val="000000"/></a:solidFill></a:ln></p:spPr>"#;
    let (fill, line) = parse_sp_pr(xml).unwrap();
    assert!(fill.is_some());
    assert!(line.is_some());
    match fill.unwrap() {
        FillFormat::Solid(c) => assert_eq!(rgb_of(&c), (0, 255, 0)),
        _ => panic!("Expected Solid fill"),
    }
    let l = line.unwrap();
    assert_eq!(l.width, Some(12700));
}

#[test]
fn test_parse_line_no_fill() {
    let xml = br#"<a:ln w="9525"><a:noFill/></a:ln>"#;
    let line = parse_line(xml).unwrap();
    assert!(line.is_some());
    let l = line.unwrap();
    assert_eq!(l.width, Some(9525));
    assert!(matches!(l.fill, Some(FillFormat::NoFill)));
}

#[test]
fn test_parse_fill_background() {
    let xml = br#"<a:spPr><a:grpFill/></a:spPr>"#;
    let fill = parse_fill(xml).unwrap();
    assert!(matches!(fill, Some(FillFormat::Background)));
}

#[test]
fn test_parse_color_system() {
    let xml = br#"<a:sysClr val="windowText" lastClr="000000"/>"#;
    let color = parse_color(xml).unwrap();
    assert!(color.is_some());
    match color.unwrap() {
        ColorFormat::System(sys) => {
            assert_eq!(sys.val, "windowText");
            assert_eq!(sys.last_color.as_deref(), Some("000000"));
        }
        _ => panic!("Expected System color"),
    }
}

#[test]
fn scheme_color_brightness_from_modifiers() {
    let shade = br#"<a:schemeClr val="accent2"><a:lumMod val="75000"/></a:schemeClr>"#;
    match parse_color(shade).unwrap().unwrap() {
        ColorFormat::Theme(t) => {
            assert_eq!(t.theme_color, "accent2");
            assert_eq!(t.brightness, Some(-25000));
        }
        _ => panic!("Expected Theme color"),
    }
    let tint = br#"<a:schemeClr val="tx1"><a:lumMod val="60000"/><a:lumOff val="40000"/></a:schemeClr>"#;
    match parse_color(tint).unwrap().unwrap() {
        ColorFormat::Theme(t) => assert_eq!(t.brightness, Some(40000)),
        _ => panic!("Expected Theme color"),
    }
}

#[test]
fn other_colors_and_defaults() {
    match parse_color(br#"<a:hslClr hue="120" sat="x"/>"#).unwrap().unwrap() {
        ColorFormat::Hsl(h) => assert_eq!((h.hue, h.sat, h.lum), (120, 0, 0)),
        _ => panic!("Expected HSL color"),
    }
    match parse_color(br#"<a:prstClr/>"#).unwrap().unwrap() {
        ColorFormat::Preset(p) => assert_eq!(p, "black"),
        _ => panic!("Expected preset color"),
    }
    match parse_color(br#"<a:sysClr/>"#).unwrap().unwrap() {
        ColorFormat::System(s) => assert_eq!(s.val, "windowText"),
        _ => panic!("Expected System color"),
    }
    assert!(parse_color(br#"<a:srgbClr val="XYZ"/>"#).unwrap().is_none());
    assert_eq!(parse_color(br#"<a:srgbClr val="a&bogus;"/>"#).err(), Some(PptxError::MalformedAttribute));
}

#[test]
fn fill_errors_and_solid_without_color() {
    assert!(matches!(parse_fill(br#"<a:spPr><a:solidFill><a:srgbClr val="00FF00"/>"#), Err(PptxError::InvalidXml(_))));
    assert!(parse_fill(br#"<a:spPr><a:solidFill></a:solidFill><a:noFill/></a:spPr>"#).unwrap().is_none());
    assert!(parse_fill(br#"<a:spPr><a:gradFill><a:gsLst/></a:gradFill></a:spPr>"#).unwrap().is_none());
    assert!(parse_line(br#"<a:ln/>"#).unwrap().is_none());
}

#[test]
fn gradient_from_inner_content() {
    let inner = br#"<a:gsLst><a:gs pos="50000"><a:schemeClr val="accent1"/></a:gs></a:gsLst>"#;
    match parse_gradient(inner).unwrap().unwrap() {
        FillFormat::Gradient(g) => {
            assert_eq!(g.stops.len(), 1);
            assert_eq!(g.stops[0].position, 50000);
            assert_eq!(g.angle, None);
        }
        _ => panic!("Expected Gradient fill"),
    }
}

#[test]
fn sp_pr_fill_depth_rules() {
    // the outline's noFill is the line's fill; an outline's content is skipped without
    // counting its end tag, so the later noFill is not at the shape's level
    let xml = br#"<p:spPr><a:ln w="9525"><a:noFill/></a:ln><a:noFill/></p:spPr>"#;
    let (fill, line) = parse_sp_pr(xml).unwrap();
    assert!(matches!(fill, None));
    assert!(matches!(line.unwrap().fill, Some(FillFormat::NoFill)));
    let grp = br#"<a:grpFill/>"#;
    let (fill, line) = parse_sp_pr(grp).unwrap();
    assert!(matches!(fill, Some(FillFormat::Background)));
    assert!(line.is_none());
}

fn rgb(r: u8, g: u8, b: u8) -> ColorFormat {
    ColorFormat::Rgb(pptx::theme::RGBColor { r, g, b })
}

#[test]
fn test_round_trip_fill_and_line() {
    let fill = FillFormat::Solid(rgb(128, 0, 255));
    let line = pptx::shapes::fill::LineFormat { color: Some(rgb(0, 0, 0)), width: Some(12700), dash_style: None, fill: None };

    let mut sp_pr = String::from("<p:spPr>");
    sp_pr.push_str(&fill.to_xml_string());
    sp_pr.push_str(&line.to_xml_string());
    sp_pr.push_str("</p:spPr>");

    let (parsed_fill, parsed_line) = parse_sp_pr(sp_pr.as_bytes()).unwrap();
    assert!(parsed_fill.is_some());
    assert!(parsed_line.is_some());
    match parsed_fill.unwrap() {
        FillFormat::Solid(c) => assert_eq!(rgb_of(&c), (128, 0, 255)),
        _ => panic!("Expected Solid"),
    }
    let l = parsed_line.unwrap();
    assert_eq!(l.width, Some(12700));
}

#[test]
fn test_autoshape_with_fill_and_line() {
    let mut shape = pptx::shapes::model::AutoShape::with_geometry(
        pptx::units::ShapeId(2), "Rectangle 1", pptx::units::Emu(914400), pptx::units::Emu(914400),
        pptx::units::Emu(1828800), pptx::units::Emu(914400), "rect");
    shape.fill = Some(FillFormat::Solid(rgb(255, 0, 0)));
    shape.line = Some(pptx::shapes::fill::LineFormat { color: Some(rgb(0, 0, 0)), width: Some(12700), dash_style: None, fill: None });
    let xml = shape.to_xml_string();
    assert!(xml.contains("<a:solidFill>"));
    assert!(xml.contains("FF0000"));
    assert!(xml.contains("<a:ln w=\"12700\">"));
    assert!(xml.contains("000000"));
}

#[test]
fn fill_and_color_xml_exact() {
    let theme = ColorFormat::Theme(pptx::shapes::color::ThemeColor { theme_color: "accent1".to_string(), brightness: Some(-25000) });
    let f = FillFormat::Solid(theme);
    assert_eq!(f.to_xml_string(), "<a:solidFill><a:schemeClr val=\"accent1\"><a:lumMod val=\"75000\"/></a:schemeClr></a:solidFill>");
    match parse_fill(f.to_xml_string().as_bytes()).unwrap().unwrap() {
        FillFormat::Solid(ColorFormat::Theme(t)) => assert_eq!(t.brightness, Some(-25000)),
        _ => panic!("Expected Theme color"),
    }
    assert_eq!(FillFormat::NoFill.to_xml_string(), "<a:noFill/>");
    assert_eq!(FillFormat::Background.to_xml_string(), "<a:grpFill/>");
}

#[test]
fn parsed_shape_keeps_fill_and_line() {
    let xml = br#"<p:sld><p:cSld><p:spTree><p:sp><p:nvSpPr><p:cNvPr id="2" name="Box"/></p:nvSpPr><p:spPr><a:prstGeom prst="rect"><a:avLst/></a:prstGeom><a:solidFill><a:srgbClr val="00FF00"/></a:solidFill><a:ln w="9525"><a:prstDash val="dash"/></a:ln></p:spPr></p:sp></p:spTree></p:cSld></p:sld>"#;
    let v = pptx::shapes::parse::parse_shapes_from_slide_xml(xml).unwrap();
    let a = v[0].as_autoshape().unwrap();
    match a.fill.as_ref().unwrap() {
        FillFormat::Solid(c) => assert_eq!(rgb_of(c), (0, 255, 0)),
        _ => panic!("Expected Solid"),
    }
    let l = a.line.as_ref().unwrap();
    assert_eq!(l.width, Some(9525));
    assert_eq!(l.dash_style.as_deref(), Some("dash"));
    let out = a.to_xml_string();
    assert!(out.contains("<a:solidFill><a:srgbClr val=\"00FF00\"/></a:solidFill><a:ln w=\"9525\"><a:prstDash val=\"dash\"/></a:ln></p:spPr>"));
}
