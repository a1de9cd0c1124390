use pptx::opc::package::{OpcPackage, Part, Relationships};
use pptx::opc::uri::{relative_ref, resolve_target, PackURI};

#[test]
fn resolve_relative_targets() {
    assert_eq!(resolve_target("/ppt/slides", "../slideLayouts/slideLayout1.xml"), "/ppt/slideLayouts/slideLayout1.xml");
    assert_eq!(resolve_target("/", "ppt/presentation.xml"), "/ppt/presentation.xml");
    assert_eq!(resolve_target("/ppt", "./slides/./slide1.xml"), "/ppt/slides/slide1.xml");
    assert_eq!(resolve_target("/ppt/slides", "/docProps/core.xml"), "/docProps/core.xml");
}

#[test]
fn relative_ref_round_trips() {
    let r = relative_ref("/ppt/slideLayouts/slideLayout1.xml", "/ppt/slides");
    assert_eq!(r, "../slideLayouts/slideLayout1.xml");
    assert_eq!(resolve_target("/ppt/slides", &r), "/ppt/slideLayouts/slideLayout1.xml");
    assert_eq!(relative_ref("/ppt/slides/slide1.xml", "/ppt"), "slides/slide1.xml");
}

#[test]
fn pack_uri_base_and_absolute() {
    assert!(PackURI::new("ppt/x.xml").is_err());
    let u = PackURI::new("/ppt/slides/slide1.xml").unwrap();
    assert_eq!(u.base_uri(), "/ppt/slides");
    assert_eq!(PackURI::new("/x.xml").unwrap().base_uri(), "/");
}

#[test]
fn relationship_ids_are_fresh() {
    let mut rels = Relationships::new("/ppt");
    assert_eq!(rels.add_relationship("t", "a.xml", false), "rId1");
    assert_eq!(rels.add_relationship("t", "b.xml", false), "rId2");
    assert!(rels.remove("rId1").is_some());
    assert_eq!(rels.next_r_id(), "rId1");
    assert_eq!(rels.or_add("t", "b.xml", false), "rId2");
    assert_eq!(rels.len(), 1);
}

#[test]
fn package_next_partname_and_put() {
    let mut pkg = OpcPackage::empty();
    assert_eq!(pkg.next_partname("/ppt/slides/slide", ".xml").as_str(), "/ppt/slides/slide1.xml");
    pkg.put_part(Part::new(PackURI::new("/ppt/slides/slide1.xml").unwrap(), "ct", vec![1]));
    assert_eq!(pkg.next_partname("/ppt/slides/slide", ".xml").as_str(), "/ppt/slides/slide2.xml");
    pkg.put_part(Part::new(PackURI::new("/ppt/slides/slide1.xml").unwrap(), "ct", vec![2]));
    assert_eq!(pkg.part_count(), 1);
    assert_eq!(pkg.part(&PackURI::new("/ppt/slides/slide1.xml").unwrap()).unwrap().blob, vec![2]);
}

#[test]
fn xml_escape_replaces_the_five_specials() {
    assert_eq!(pptx::text::xml_escape(r#"a<b>&"c'"#), "a&lt;b&gt;&amp;&quot;c&apos;");
    assert_eq!(pptx::text::xml_escape("plain"), "plain");
    assert_eq!(pptx::text::xml_escape(""), "");
}
