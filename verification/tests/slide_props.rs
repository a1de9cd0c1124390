use pptx::presentation::Presentation;

fn slide_text(prs: &Presentation, s: &pptx::presentation::SlideRef) -> String {
    String::from_utf8(prs.slide_xml(s).unwrap().to_vec()).unwrap()
}

#[test]
fn transition_is_inserted_and_replaced() {
    let mut prs = Presentation::new().unwrap();
    let layouts = prs.slide_layouts().unwrap();
    let s = prs.add_slide(&layouts[0]).unwrap();
    prs.set_slide_transition(&s, r#"<p:transition spd="fast"><p:fade/></p:transition>"#).unwrap();
    let t = slide_text(&prs, &s);
    assert!(t.ends_with(r#"<p:transition spd="fast"><p:fade/></p:transition></p:sld>"#));
    prs.set_slide_transition(&s, r#"<p:transition spd="slow"/>"#).unwrap();
    let t = slide_text(&prs, &s);
    assert_eq!(t.matches("<p:transition").count(), 1);
    assert!(t.ends_with(r#"<p:transition spd="slow"/></p:sld>"#));
}

#[test]
fn animations_are_set_and_removed() {
    let mut prs = Presentation::new().unwrap();
    let layouts = prs.slide_layouts().unwrap();
    let s = prs.add_slide(&layouts[0]).unwrap();
    let before = slide_text(&prs, &s);
    prs.set_slide_animations(&s, "<p:timing><p:tnLst/></p:timing>").unwrap();
    assert!(slide_text(&prs, &s).ends_with("<p:timing><p:tnLst/></p:timing></p:sld>"));
    prs.set_slide_animations(&s, "").unwrap();
    assert_eq!(slide_text(&prs, &s), before);
}

#[test]
fn clear_background_removes_bg() {
    let mut prs = Presentation::new().unwrap();
    let layouts = prs.slide_layouts().unwrap();
    let s = prs.add_slide(&layouts[0]).unwrap();
    let before = slide_text(&prs, &s);
    pptx::slide::set_slide_background_solid(prs.slide_xml_mut(&s).unwrap(), "FF0000").unwrap();
    assert!(slide_text(&prs, &s).contains("<p:bg>"));
    prs.clear_slide_background(&s).unwrap();
    assert!(!slide_text(&prs, &s).contains("<p:bg"));
    assert_eq!(slide_text(&prs, &s), before);
}

#[test]
fn slide_xml_mut_writes_through() {
    let mut prs = Presentation::new().unwrap();
    let layouts = prs.slide_layouts().unwrap();
    let s = prs.add_slide(&layouts[0]).unwrap();
    {
        let b = prs.slide_xml_mut(&s).unwrap();
        b.clear();
        b.extend_from_slice(b"<p:sld></p:sld>");
    }
    assert_eq!(prs.slide_xml(&s).unwrap(), b"<p:sld></p:sld>");
    assert!(prs.set_slide_transition(&s, "<p:transition/>").is_ok());
    assert_eq!(prs.slide_xml(&s).unwrap(), b"<p:sld><p:transition/></p:sld>");
}

#[test]
fn slide_edits_fail_without_end_tag_or_part() {
    let mut prs = Presentation::new().unwrap();
    let layouts = prs.slide_layouts().unwrap();
    let s = prs.add_slide(&layouts[0]).unwrap();
    {
        let b = prs.slide_xml_mut(&s).unwrap();
        b.clear();
        b.extend_from_slice(b"<p:sld>");
    }
    assert!(prs.set_slide_transition(&s, "<p:transition/>").is_err());
    assert_eq!(prs.slide_xml(&s).unwrap(), b"<p:sld>");
    prs.delete_slide(&s).unwrap();
    assert!(prs.slide_xml_mut(&s).is_err());
    assert!(prs.clear_slide_background(&s).is_err());
}

#[test]
fn transition_set_twice_equals_set_once() {
    let mut a = Presentation::new().unwrap();
    let layouts = a.slide_layouts().unwrap();
    let sa = a.add_slide(&layouts[0]).unwrap();
    let mut b = Presentation::new().unwrap();
    let sb = b.add_slide(&layouts[0]).unwrap();
    a.set_slide_transition(&sa, r#"<p:transition><p:fade/></p:transition>"#).unwrap();
    a.set_slide_transition(&sa, r#"<p:transition spd="slow"/>"#).unwrap();
    b.set_slide_transition(&sb, r#"<p:transition spd="slow"/>"#).unwrap();
    assert_eq!(slide_text(&a, &sa), slide_text(&b, &sb));
    a.set_slide_animations(&sa, "<p:timing/>").unwrap();
    a.set_slide_animations(&sa, "<p:timing><p:tnLst/></p:timing>").unwrap();
    b.set_slide_animations(&sb, "<p:timing><p:tnLst/></p:timing>").unwrap();
    assert_eq!(slide_text(&a, &sa), slide_text(&b, &sb));
}

#[test]
fn image_background_is_set_after_csld() {
    let mut prs = Presentation::new().unwrap();
    let layouts = prs.slide_layouts().unwrap();
    let s = prs.add_slide(&layouts[0]).unwrap();
    prs.set_slide_background_image(&s, "rId7").unwrap();
    let t = slide_text(&prs, &s);
    assert!(t.contains(
        r#"<p:cSld><p:bg><p:bgPr><a:blipFill><a:blip r:embed="rId7"/><a:stretch><a:fillRect/></a:stretch></a:blipFill><a:effectLst/></p:bgPr></p:bg>"#
    ));
}

#[test]
fn image_background_replaces_solid_background() {
    let mut prs = Presentation::new().unwrap();
    let layouts = prs.slide_layouts().unwrap();
    let s = prs.add_slide(&layouts[0]).unwrap();
    pptx::slide::set_slide_background_solid(prs.slide_xml_mut(&s).unwrap(), "00FF00").unwrap();
    prs.set_slide_background_image(&s, "rId3").unwrap();
    let t = slide_text(&prs, &s);
    assert_eq!(t.matches("<p:bg>").count(), 1);
    assert!(!t.contains("00FF00"));
    assert!(t.contains(r#"r:embed="rId3""#));
    prs.clear_slide_background(&s).unwrap();
    assert!(!slide_text(&prs, &s).contains("<p:bg>"));
}

#[test]
fn image_background_on_missing_slide_fails() {
    let mut prs = Presentation::new().unwrap();
    let layouts = prs.slide_layouts().unwrap();
    let s = prs.add_slide(&layouts[0]).unwrap();
    let uri = s.partname.clone();
    prs.package_mut().remove_part(&uri);
    assert!(prs.set_slide_background_image(&s, "rId1").is_err());
}
