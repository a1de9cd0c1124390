//! The built-in default template: presentation.xml, one slide master with eleven
//! layouts, and a theme.
use vstd::prelude::*;
use vstd::utf8::encode_utf8;
use crate::opc::content_type as CT;
use crate::opc::package::{OpcPackage, Part, PackageView, PartView, RelView, RelsView, next_rid, part_views};
use crate::opc::relationship_type as RT;
use crate::opc::relationship_type::{OFFICE_DOCUMENT, SLIDE_LAYOUT, SLIDE_MASTER, THEME};
use crate::opc::uri::{PackURI, base_uri_spec};
use crate::opc::package::Relationships;
use crate::text::{nat_digits, string_into_bytes, string_push_str, push_u64, push_escaped, xml_escape_spec};

verus! {

/// The name and type of layout `n` (1 to 11; any other `n` gives the last).
pub open spec fn layout_kind_spec(n: int) -> (Seq<char>, Seq<char>) {
    if n == 1 { ("Title Slide"@, "title"@) }
    else if n == 2 { ("Title and Content"@, "obj"@) }
    else if n == 3 { ("Section Header"@, "secHead"@) }
    else if n == 4 { ("Two Content"@, "twoObj"@) }
    else if n == 5 { ("Comparison"@, "twoTxTwoObj"@) }
    else if n == 6 { ("Title Only"@, "titleOnly"@) }
    else if n == 7 { ("Blank"@, "blank"@) }
    else if n == 8 { ("Content with Caption"@, "objTx"@) }
    else if n == 9 { ("Picture with Caption"@, "picTx"@) }
    else if n == 10 { ("Title and Vertical Text"@, "vertTx"@) }
    else { ("Vertical Title and Text"@, "vertTitleAndTx"@) }
}

/// The name and type of layout `n` of the default master (see `layout_kind_spec`).
fn layout_kind(n: u64) -> (r: (&'static str, &'static str))
    ensures
        (r.0@, r.1@) == layout_kind_spec(n as int),
{
    if n == 1 { ("Title Slide", "title") }
    else if n == 2 { ("Title and Content", "obj") }
    else if n == 3 { ("Section Header", "secHead") }
    else if n == 4 { ("Two Content", "twoObj") }
    else if n == 5 { ("Comparison", "twoTxTwoObj") }
    else if n == 6 { ("Title Only", "titleOnly") }
    else if n == 7 { ("Blank", "blank") }
    else if n == 8 { ("Content with Caption", "objTx") }
    else if n == 9 { ("Picture with Caption", "picTx") }
    else if n == 10 { ("Title and Vertical Text", "vertTx") }
    else { ("Vertical Title and Text", "vertTitleAndTx") }
}

pub const LAYOUT_START: &'static str = "<?xml version=\"1.0\" encoding=\"UTF-8\" standalone=\"yes\"?>\n<p:sldLayout xmlns:a=\"http://schemas.openxmlformats.org/drawingml/2006/main\" xmlns:r=\"http://schemas.openxmlformats.org/officeDocument/2006/relationships\" xmlns:p=\"http://schemas.openxmlformats.org/presentationml/2006/main\" type=\"";
pub const LAYOUT_MID: &'static str = "\" preserve=\"1\"><p:cSld name=\"";
pub const LAYOUT_END: &'static str = "\"><p:spTree><p:nvGrpSpPr><p:cNvPr id=\"1\" name=\"\"/><p:cNvGrpSpPr/><p:nvPr/></p:nvGrpSpPr><p:grpSpPr/></p:spTree></p:cSld><p:clrMapOvr><a:masterClrMapping/></p:clrMapOvr></p:sldLayout>";

/// The XML of a layout named `name` of type `kind`, with an empty shape tree.
pub open spec fn layout_text(name: Seq<char>, kind: Seq<char>) -> Seq<char> {
    LAYOUT_START@ + kind + LAYOUT_MID@ + xml_escape_spec(name) + LAYOUT_END@
}

fn layout_xml(name: &str, kind: &str) -> (r: Vec<u8>)
    ensures
        r@ == encode_utf8(layout_text(name@, kind@)),
{
    let mut s = String::new();
    string_push_str(&mut s, LAYOUT_START);
    string_push_str(&mut s, kind);
    string_push_str(&mut s, LAYOUT_MID);
    push_escaped(&mut s, name);
    string_push_str(&mut s, LAYOUT_END);
    assert(s@ =~= layout_text(name@, kind@));
    string_into_bytes(s)
}

pub const MASTER_START: &'static str = "<?xml version=\"1.0\" encoding=\"UTF-8\" standalone=\"yes\"?>\n<p:sldMaster xmlns:a=\"http://schemas.openxmlformats.org/drawingml/2006/main\" xmlns:r=\"http://schemas.openxmlformats.org/officeDocument/2006/relationships\" xmlns:p=\"http://schemas.openxmlformats.org/presentationml/2006/main\"><p:cSld><p:bg><p:bgRef idx=\"1001\"><a:schemeClr val=\"bg1\"/></p:bgRef></p:bg><p:spTree><p:nvGrpSpPr><p:cNvPr id=\"1\" name=\"\"/><p:cNvGrpSpPr/><p:nvPr/></p:nvGrpSpPr><p:grpSpPr/></p:spTree></p:cSld><p:clrMap bg1=\"lt1\" tx1=\"dk1\" bg2=\"lt2\" tx2=\"dk2\" accent1=\"accent1\" accent2=\"accent2\" accent3=\"accent3\" accent4=\"accent4\" accent5=\"accent5\" accent6=\"accent6\" hlink=\"hlink\" folHlink=\"folHlink\"/><p:sldLayoutIdLst>";
pub const MASTER_END: &'static str = "</p:sldLayoutIdLst><p:txStyles><p:titleStyle/><p:bodyStyle/><p:otherStyle/></p:txStyles></p:sldMaster>";

/// The entries of the master's layout list for layouts 1 to `n`: ids from 2147483649 on,
/// relationship ids `rId1` on.
pub open spec fn layout_ids_text(n: nat) -> Seq<char>
    decreases n,
{
    if n == 0 {
        Seq::empty()
    } else {
        layout_ids_text((n - 1) as nat) + "<p:sldLayoutId id=\""@ + nat_digits((2147483648 + n) as nat) + "\" r:id=\"rId"@
            + nat_digits(n) + "\"/>"@
    }
}

/// The XML of the slide master: a background, an empty shape tree, the colour map, the
/// list of the eleven layouts and empty text styles.
pub open spec fn master_text() -> Seq<char> {
    MASTER_START@ + layout_ids_text(11) + MASTER_END@
}

fn master_xml() -> (r: Vec<u8>)
    ensures
        r@ == encode_utf8(master_text()),
{
    let mut s = String::new();
    string_push_str(&mut s, MASTER_START);
    let mut n: u64 = 1;
    while n <= 11
        invariant
            1 <= n <= 12,
            s@ == MASTER_START@ + layout_ids_text((n - 1) as nat),
        decreases 12 - n,
    {
        string_push_str(&mut s, "<p:sldLayoutId id=\"");
        push_u64(&mut s, 2147483648 + n);
        string_push_str(&mut s, "\" r:id=\"rId");
        push_u64(&mut s, n);
        string_push_str(&mut s, "\"/>");
        assert(s@ =~= MASTER_START@ + layout_ids_text(n as nat));
        n = n + 1;
    }
    string_push_str(&mut s, MASTER_END);
    string_into_bytes(s)
}

pub const PRESENTATION_TEXT: &'static str = "<?xml version=\"1.0\" encoding=\"UTF-8\" standalone=\"yes\"?>\n<p:presentation xmlns:a=\"http://schemas.openxmlformats.org/drawingml/2006/main\" xmlns:r=\"http://schemas.openxmlformats.org/officeDocument/2006/relationships\" xmlns:p=\"http://schemas.openxmlformats.org/presentationml/2006/main\" saveSubsetFonts=\"1\"><p:sldMasterIdLst><p:sldMasterId id=\"2147483648\" r:id=\"rId1\"/></p:sldMasterIdLst><p:sldSz cx=\"9144000\" cy=\"6858000\" type=\"screen4x3\"/><p:notesSz cx=\"6858000\" cy=\"9144000\"/><p:defaultTextStyle/></p:presentation>";

/// The XML of presentation.xml: the master list with one master, a 4:3 slide size, the
/// notes size, and no slides.
pub open spec fn presentation_text() -> Seq<char> {
    PRESENTATION_TEXT@
}

fn presentation_xml() -> (r: Vec<u8>)
    ensures
        r@ == encode_utf8(presentation_text()),
{
    string_into_bytes(PRESENTATION_TEXT.to_owned())
}

pub const THEME_COLORS: &'static str = "<?xml version=\"1.0\" encoding=\"UTF-8\" standalone=\"yes\"?>\n<a:theme xmlns:a=\"http://schemas.openxmlformats.org/drawingml/2006/main\" name=\"Office Theme\"><a:themeElements><a:clrScheme name=\"Office\"><a:dk1><a:sysClr val=\"windowText\" lastClr=\"000000\"/></a:dk1><a:lt1><a:sysClr val=\"window\" lastClr=\"FFFFFF\"/></a:lt1><a:dk2><a:srgbClr val=\"1F497D\"/></a:dk2><a:lt2><a:srgbClr val=\"EEECE1\"/></a:lt2><a:accent1><a:srgbClr val=\"4F81BD\"/></a:accent1><a:accent2><a:srgbClr val=\"C0504D\"/></a:accent2><a:accent3><a:srgbClr val=\"9BBB59\"/></a:accent3><a:accent4><a:srgbClr val=\"8064A2\"/></a:accent4><a:accent5><a:srgbClr val=\"4BACC6\"/></a:accent5><a:accent6><a:srgbClr val=\"F79646\"/></a:accent6><a:hlink><a:srgbClr val=\"0000FF\"/></a:hlink><a:folHlink><a:srgbClr val=\"800080\"/></a:folHlink></a:clrScheme>";
pub const THEME_FONTS: &'static str = "<a:fontScheme name=\"Office\"><a:majorFont><a:latin typeface=\"Calibri\"/><a:ea typeface=\"\"/><a:cs typeface=\"\"/></a:majorFont><a:minorFont><a:latin typeface=\"Calibri\"/><a:ea typeface=\"\"/><a:cs typeface=\"\"/></a:minorFont></a:fontScheme>";
pub const THEME_FORMATS: &'static str = "<a:fmtScheme name=\"Office\"><a:fillStyleLst><a:solidFill><a:schemeClr val=\"phClr\"/></a:solidFill><a:solidFill><a:schemeClr val=\"phClr\"/></a:solidFill><a:solidFill><a:schemeClr val=\"phClr\"/></a:solidFill></a:fillStyleLst><a:lnStyleLst><a:ln w=\"9525\"><a:solidFill><a:schemeClr val=\"phClr\"/></a:solidFill></a:ln><a:ln w=\"25400\"><a:solidFill><a:schemeClr val=\"phClr\"/></a:solidFill></a:ln><a:ln w=\"38100\"><a:solidFill><a:schemeClr val=\"phClr\"/></a:solidFill></a:ln></a:lnStyleLst><a:effectStyleLst><a:effectStyle><a:effectLst/></a:effectStyle><a:effectStyle><a:effectLst/></a:effectStyle><a:effectStyle><a:effectLst/></a:effectStyle></a:effectStyleLst><a:bgFillStyleLst><a:solidFill><a:schemeClr val=\"phClr\"/></a:solidFill><a:solidFill><a:schemeClr val=\"phClr\"/></a:solidFill><a:solidFill><a:schemeClr val=\"phClr\"/></a:solidFill></a:bgFillStyleLst></a:fmtScheme></a:themeElements><a:objectDefaults/><a:extraClrSchemeLst/></a:theme>";

/// The XML of the Office theme: its colour, font and format schemes.
pub open spec fn theme_text() -> Seq<char> {
    THEME_COLORS@ + THEME_FONTS@ + THEME_FORMATS@
}

fn theme_xml() -> (r: Vec<u8>)
    ensures
        r@ == encode_utf8(theme_text()),
{
    let mut s = String::new();
    string_push_str(&mut s, THEME_COLORS);
    string_push_str(&mut s, THEME_FONTS);
    string_push_str(&mut s, THEME_FORMATS);
    string_into_bytes(s)
}

fn numbered(prefix: &str, n: u64, suffix: &str) -> (r: String)
    ensures
        r@ == prefix@ + nat_digits(n as nat) + suffix@,
{
    crate::opc::package::numbered_name(prefix, n, suffix)
}

/// `rels` with a relationship of type `rt` to `target` (not external) added, with the
/// next free id.
pub open spec fn with_rel(rels: Seq<RelView>, rt: Seq<char>, target: Seq<char>) -> Seq<RelView> {
    rels.push(RelView { r_id: next_rid(rels), rel_type: rt, target_ref: target, is_external: false })
}

/// A part of the template.
pub open spec fn template_part(name: Seq<char>, ct: Seq<char>, text: Seq<char>, rels: Seq<RelView>) -> PartView {
    PartView { partname: name, content_type: ct, blob: encode_utf8(text), rels: RelsView { rels, base: base_uri_spec(name) } }
}

/// The name of layout `n`.
pub open spec fn layout_part_name(n: int) -> Seq<char> {
    "/ppt/slideLayouts/slideLayout"@ + nat_digits(n as nat) + ".xml"@
}

/// Layout `n` of the template, related to the master.
pub open spec fn layout_part(n: int) -> PartView {
    template_part(
        layout_part_name(n),
        CT::PML_SLIDE_LAYOUT@,
        layout_text(layout_kind_spec(n).0, layout_kind_spec(n).1),
        with_rel(Seq::empty(), SLIDE_MASTER@, "../slideMasters/slideMaster1.xml"@),
    )
}

/// The master's relationships to layouts 1 to `n`, in order.
pub open spec fn master_layout_rels(n: nat) -> Seq<RelView>
    decreases n,
{
    if n == 0 {
        Seq::empty()
    } else {
        with_rel(master_layout_rels((n - 1) as nat), SLIDE_LAYOUT@, "../slideLayouts/slideLayout"@ + nat_digits(n) + ".xml"@)
    }
}

proof fn lemma_master_layout_rels_len(n: nat)
    ensures
        master_layout_rels(n).len() == n,
    decreases n,
{
    if n > 0 {
        lemma_master_layout_rels_len((n - 1) as nat);
    }
}

/// The package of the default template: presentation.xml (related to the master and the
/// theme), the eleven layouts, the slide master (related to its layouts and the theme) and
/// the theme, in that order, and the package's officeDocument relationship.
pub open spec fn template_package() -> PackageView {
    PackageView {
        parts: seq![template_part(
            "/ppt/presentation.xml"@,
            CT::PML_PRESENTATION_MAIN@,
            presentation_text(),
            with_rel(with_rel(Seq::empty(), SLIDE_MASTER@, "slideMasters/slideMaster1.xml"@), THEME@, "theme/theme1.xml"@),
        )] + Seq::new(11, |k: int| layout_part(k + 1)) + seq![
            template_part(
                "/ppt/slideMasters/slideMaster1.xml"@,
                CT::PML_SLIDE_MASTER@,
                master_text(),
                with_rel(master_layout_rels(11), THEME@, "../theme/theme1.xml"@),
            ),
            template_part("/ppt/theme/theme1.xml"@, CT::OFC_THEME@, theme_text(), Seq::empty()),
        ],
        pkg_rels: RelsView { rels: with_rel(Seq::empty(), OFFICE_DOCUMENT@, "ppt/presentation.xml"@), base: seq!['/'] },
    }
}

/// The package of the default template (see `template_package`).
pub(crate) fn default_package() -> (r: OpcPackage)
    ensures
        r@ == template_package(),
{
    let mut parts: Vec<Part> = Vec::new();
    // presentation.xml
    let mut pres = Part::new(
        PackURI::from_string("/ppt/presentation.xml".to_owned()),
        CT::PML_PRESENTATION_MAIN,
        presentation_xml(),
    );
    pres.rels.add_relationship(RT::SLIDE_MASTER, "slideMasters/slideMaster1.xml", false);
    pres.rels.add_relationship(RT::THEME, "theme/theme1.xml", false);
    let ghost pv = template_package().parts[0];
    assert(pres@ == pv);
    parts.push(pres);
    // the slide master and its layouts
    let mut master = Part::new(
        PackURI::from_string("/ppt/slideMasters/slideMaster1.xml".to_owned()),
        CT::PML_SLIDE_MASTER,
        master_xml(),
    );
    assert(part_views(parts@) =~= seq![pv]);
    let mut n: u64 = 1;
    while n <= 11
        invariant
            1 <= n <= 12,
            master@.rels.rels == master_layout_rels((n - 1) as nat),
            master@.partname == "/ppt/slideMasters/slideMaster1.xml"@,
            master@.content_type == CT::PML_SLIDE_MASTER@,
            master@.blob == encode_utf8(master_text()),
            master@.rels.base == base_uri_spec("/ppt/slideMasters/slideMaster1.xml"@),
            pv == template_package().parts[0],
            part_views(parts@) == seq![pv] + Seq::new((n - 1) as nat, |k: int| layout_part(k + 1)),
        decreases 12 - n,
    {
        proof { lemma_master_layout_rels_len((n - 1) as nat); }
        let target = numbered("../slideLayouts/slideLayout", n, ".xml");
        master.rels.add_relationship(RT::SLIDE_LAYOUT, target.as_str(), false);
        let (name, kind) = layout_kind(n);
        let mut layout = Part::new(
            PackURI::from_string(numbered("/ppt/slideLayouts/slideLayout", n, ".xml")),
            CT::PML_SLIDE_LAYOUT,
            layout_xml(name, kind),
        );
        layout.rels.add_relationship(RT::SLIDE_MASTER, "../slideMasters/slideMaster1.xml", false);
        assert(layout@ == layout_part(n as int));
        let ghost before = part_views(parts@);
        parts.push(layout);
        assert(part_views(parts@) =~= before.push(layout_part(n as int)));
        assert(seq![pv] + Seq::new(n as nat, |k: int| layout_part(k + 1)) =~= before.push(layout_part(n as int)));
        n = n + 1;
    }
    proof { lemma_master_layout_rels_len(11); }
    master.rels.add_relationship(RT::THEME, "../theme/theme1.xml", false);
    let ghost mv = template_package().parts[12];
    assert(master@ == mv);
    parts.push(master);
    let theme = Part::new(PackURI::from_string("/ppt/theme/theme1.xml".to_owned()), CT::OFC_THEME, theme_xml());
    let ghost tv = template_package().parts[13];
    assert(theme@.rels.rels =~= Seq::<RelView>::empty());
    assert(theme@ == tv);
    parts.push(theme);
    assert(part_views(parts@) =~= template_package().parts);
    let mut pkg_rels = Relationships::new("/");
    pkg_rels.add_relationship(RT::OFFICE_DOCUMENT, "ppt/presentation.xml", false);
    proof { reveal_strlit("/"); }
    assert(pkg_rels@.base =~= seq!['/']);
    assert(pkg_rels@.rels =~= template_package().pkg_rels.rels);
    OpcPackage::from_parts(parts, pkg_rels)
}

} // verus!
