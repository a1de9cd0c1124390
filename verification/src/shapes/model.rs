//! The shapes of a slide's shape tree, and the XML that each of them is written as.
//!
//! Angles are held in 60000ths of a degree and crop fractions and adjustment values in
//! 100000ths, the units in which the XML carries them.
use vstd::prelude::*;
use crate::shapes::action::{ActionSetting, action_xml};
use crate::shapes::freeform::{FreeformBuilder, freeform_xml};
use crate::shapes::placeholder::{PlaceholderFormat, type_attr, idx_attr};
use crate::text::{
    int_text, nat_digits, push_escaped, push_i64, push_u64, string_push_str, xml_escape_spec,
};
use crate::error::PptxError;
use crate::shapes::text_frame::TextFrame;
use crate::shapes::text_xml::frame_xml;
use crate::shapes::fill::{FillFormat, LineFormat};
use crate::shapes::fill_xml::{fill_xml, line_xml, push_fill, push_line};
use crate::units::{Emu, RelationshipId, ShapeId};

verus! {

/// A regular shape (`<p:sp>`): a text box, a rectangle, an oval or another geometry.
#[derive(Debug, Clone)]
pub struct AutoShape {
    pub shape_id: ShapeId,
    pub name: String,
    pub left: Emu,
    pub top: Emu,
    pub width: Emu,
    pub height: Emu,
    /// Rotation in 60000ths of a degree.
    pub rotation: i64,
    /// The preset geometry's token (`rect`, `ellipse`, `roundRect`, ...).
    pub prst_geom: Option<String>,
    /// Whether the shape is a text box (`<p:cNvSpPr txBox="1"/>`).
    pub is_textbox: bool,
    pub placeholder: Option<PlaceholderFormat>,
    /// The `<p:txBody>` XML of the shape, when it has one (empty when only its presence is
    /// known).
    pub tx_body_xml: Option<Vec<u8>>,
    /// The text frame, written in place of `tx_body_xml` when present.
    pub text_frame: Option<TextFrame>,
    /// The fill, written after the geometry.
    pub fill: Option<FillFormat>,
    /// The outline, written after the fill.
    pub line: Option<LineFormat>,
    pub click_action: Option<ActionSetting>,
    pub hover_action: Option<ActionSetting>,
    /// Adjustment values of the preset geometry, in 100000ths.
    pub adjustments: Vec<i64>,
    /// Custom geometry, written in place of the preset geometry when present.
    pub custom_geometry: Option<FreeformBuilder>,
}

/// A picture (`<p:pic>`).
#[derive(Debug, Clone)]
pub struct Picture {
    pub shape_id: ShapeId,
    pub name: String,
    pub left: Emu,
    pub top: Emu,
    pub width: Emu,
    pub height: Emu,
    /// Rotation in 60000ths of a degree.
    pub rotation: i64,
    /// The relationship id of the image (`r:embed` of `<a:blip>`).
    pub image_r_id: Option<String>,
    /// Description text for accessibility.
    pub description: Option<String>,
    pub placeholder: Option<PlaceholderFormat>,
    /// Crop from each side, in 100000ths of the image.
    pub crop_left: i64,
    pub crop_right: i64,
    pub crop_top: i64,
    pub crop_bottom: i64,
    pub click_action: Option<ActionSetting>,
    pub hover_action: Option<ActionSetting>,
    /// The preset geometry token that the picture is clipped to; a rectangle when absent.
    pub auto_shape_type: Option<String>,
}

/// A graphic frame (`<p:graphicFrame>`): a table, a chart or a diagram.
#[derive(Debug, Clone)]
pub struct GraphicFrame {
    pub shape_id: ShapeId,
    pub name: String,
    pub left: Emu,
    pub top: Emu,
    pub width: Emu,
    pub height: Emu,
    pub rotation: i64,
    pub has_table: bool,
    pub has_chart: bool,
    /// The `uri` of `<a:graphicData>`.
    pub graphic_data_uri: Option<String>,
    pub placeholder: Option<PlaceholderFormat>,
    /// The `r:dm` relationship id of a diagram.
    pub smartart_r_id: Option<String>,
}

/// A connector (`<p:cxnSp>`).
#[derive(Debug, Clone)]
pub struct Connector {
    pub shape_id: ShapeId,
    pub name: String,
    pub left: Emu,
    pub top: Emu,
    pub width: Emu,
    pub height: Emu,
    pub rotation: i64,
    pub flip_h: bool,
    pub flip_v: bool,
    pub prst_geom: Option<String>,
    /// The shape the connector begins at, and the connection point on it.
    pub begin_shape_id: Option<ShapeId>,
    pub begin_cxn_idx: Option<u32>,
    /// The shape the connector ends at, and the connection point on it.
    pub end_shape_id: Option<ShapeId>,
    pub end_cxn_idx: Option<u32>,
}

/// A group shape (`<p:grpSp>`).
#[derive(Debug)]
pub struct GroupShape {
    pub shape_id: ShapeId,
    pub name: String,
    pub left: Emu,
    pub top: Emu,
    pub width: Emu,
    pub height: Emu,
    pub rotation: i64,
    /// The shapes inside the group.
    pub shapes: Vec<Shape>,
}

/// An embedded OLE object (`<p:graphicFrame>` with OLE graphic data).
#[derive(Debug, Clone)]
pub struct OleObject {
    pub shape_id: ShapeId,
    pub name: String,
    pub left: Emu,
    pub top: Emu,
    pub width: Emu,
    pub height: Emu,
    /// Rotation in 60000ths of a degree.
    pub rotation: i64,
    /// The program identifier of the embedded object (`Excel.Sheet.12`, ...).
    pub prog_id: String,
    /// The embedded file's bytes.
    pub data: Vec<u8>,
    /// The relationship id of the embedded object's part.
    pub r_id: Option<RelationshipId>,
    /// The relationship id of the icon image shown for the object.
    pub icon_r_id: Option<RelationshipId>,
}

/// A shape of a slide's shape tree.
#[derive(Debug)]
pub enum Shape {
    AutoShape(AutoShape),
    Picture(Picture),
    GraphicFrame(GraphicFrame),
    Connector(Connector),
    GroupShape(GroupShape),
    OleObject(OleObject),
}

/// The characters of an optional string.
pub open spec fn opt_text(s: Option<String>) -> Option<Seq<char>> {
    match s {
        Some(x) => Some(x@),
        None => None,
    }
}

/// The opening of `<p:cNvPr>`: its id and escaped name.
pub open spec fn cnvpr_head(id: ShapeId, name: Seq<char>) -> Seq<char> {
    "<p:cNvPr id=\""@ + nat_digits(id.0 as nat) + "\" name=\""@ + xml_escape_spec(name) + "\""@
}

/// The rest of `<p:cNvPr>`: the click and hover actions as its children when there are any,
/// else the end of an empty element.
pub open spec fn actions_tail(click: Option<ActionSetting>, hover: Option<ActionSetting>) -> Seq<char> {
    if click is Some || hover is Some {
        ">"@
            + (match click { Some(a) => action_xml(a, "a:hlinkClick"@, None), None => Seq::empty() })
            + (match hover { Some(a) => action_xml(a, "a:hlinkHover"@, None), None => Seq::empty() })
            + "</p:cNvPr>"@
    } else {
        "/>"@
    }
}

/// `<p:nvPr>` with the placeholder's type and index, or empty.
pub open spec fn nvpr_xml(ph: Option<PlaceholderFormat>) -> Seq<char> {
    match ph {
        Some(p) => "<p:nvPr><p:ph"@ + type_attr(p.ph_type) + idx_attr(p.idx) + "/></p:nvPr>"@,
        None => "<p:nvPr/>"@,
    }
}

/// `<a:xfrm>`: the rotation when it is not zero, the offset and the extent.
pub open spec fn xfrm_xml(rot: i64, left: Emu, top: Emu, width: Emu, height: Emu) -> Seq<char> {
    "<a:xfrm"@
        + (if rot != 0 { " rot=\""@ + int_text(rot as int) + "\""@ } else { Seq::empty() })
        + ">"@
        + xfrm_body(left, top, width, height)
}

/// One adjustment guide, the `k`-th (counting from one).
pub open spec fn guide_xml(k: nat, v: i64) -> Seq<char> {
    "<a:gd name=\"adj"@ + nat_digits(k) + "\" fmla=\"val "@ + int_text(v as int) + "\"/>"@
}

/// The adjustment guides of a list of values, in order.
pub open spec fn guides_xml(adj: Seq<i64>) -> Seq<char>
    decreases adj.len(),
{
    if adj.len() == 0 {
        Seq::empty()
    } else {
        guides_xml(adj.drop_last()) + guide_xml(adj.len(), adj.last())
    }
}

/// `<a:avLst>`: empty without adjustments, else the guides.
pub open spec fn av_list_xml(adj: Seq<i64>) -> Seq<char> {
    if adj.len() == 0 {
        "<a:avLst/>"@
    } else {
        "<a:avLst>"@ + guides_xml(adj) + "</a:avLst>"@
    }
}

/// The geometry of a shape: the custom geometry when there is one, else the preset
/// geometry with its adjustments, else nothing.
pub open spec fn geometry_xml(s: AutoShape) -> Seq<char> {
    match s.custom_geometry {
        Some(g) => freeform_xml(g@),
        None => match s.prst_geom {
            Some(p) => "<a:prstGeom prst=\""@ + p@ + "\">"@ + av_list_xml(s.adjustments@) + "</a:prstGeom>"@,
            None => Seq::empty(),
        },
    }
}

/// The text body that a shape is written with: an empty paragraph.
pub open spec fn empty_tx_body() -> Seq<char> {
    "<p:txBody><a:bodyPr/><a:lstStyle/><a:p><a:endParaRPr lang=\"en-US\"/></a:p></p:txBody>"@
}

/// The non-visual properties of a shape (`<p:nvSpPr>`).
pub open spec fn sp_nv_xml(s: AutoShape) -> Seq<char> {
    "<p:nvSpPr>"@
        + cnvpr_head(s.shape_id, s.name@)
        + actions_tail(s.click_action, s.hover_action)
        + (if s.is_textbox { "<p:cNvSpPr txBox=\"1\"/>"@ } else { "<p:cNvSpPr/>"@ })
        + nvpr_xml(s.placeholder)
        + "</p:nvSpPr>"@
}

/// The shape properties of a shape (`<p:spPr>`): its transform, geometry, fill and outline.
pub open spec fn sp_pr_xml(s: AutoShape) -> Seq<char> {
    "<p:spPr>"@ + xfrm_xml(s.rotation, s.left, s.top, s.width, s.height) + geometry_xml(s)
        + (match s.fill { Some(f) => fill_xml(f@), None => Seq::empty() })
        + (match s.line { Some(l) => line_xml(l@), None => Seq::empty() })
        + "</p:spPr>"@
}

/// The text body a shape is written with: its text frame when it has one, else its own
/// `<p:txBody>` XML when it has some, else an empty paragraph.
pub open spec fn tx_body_part(s: AutoShape) -> Seq<char> {
    match s.text_frame {
        Some(f) => frame_xml(f@),
        None => match s.tx_body_xml {
            Some(b) => if b@.len() > 0 { crate::text::lossy_utf8(b@) } else { empty_tx_body() },
            None => empty_tx_body(),
        },
    }
}

/// The `<p:sp>` element of a shape.
pub open spec fn autoshape_xml(s: AutoShape) -> Seq<char> {
    "<p:sp>"@ + sp_nv_xml(s) + sp_pr_xml(s) + tx_body_part(s) + "</p:sp>"@
}

/// Whether a picture is cropped on any side.
pub open spec fn has_crop(p: Picture) -> bool {
    p.crop_left > 0 || p.crop_top > 0 || p.crop_right > 0 || p.crop_bottom > 0
}

/// One crop attribute, when its value is positive.
pub open spec fn crop_attr(key: Seq<char>, v: i64) -> Seq<char> {
    if v > 0 { " "@ + key + "=\""@ + int_text(v as int) + "\""@ } else { Seq::empty() }
}

/// `<a:srcRect>` with the positive crop values, when the picture is cropped.
pub open spec fn src_rect_xml(p: Picture) -> Seq<char> {
    if has_crop(p) {
        "<a:srcRect"@ + crop_attr("l"@, p.crop_left) + crop_attr("t"@, p.crop_top)
            + crop_attr("r"@, p.crop_right) + crop_attr("b"@, p.crop_bottom) + "/>"@
    } else {
        Seq::empty()
    }
}

/// The description attribute of a picture, when it has one.
pub open spec fn descr_attr(d: Option<String>) -> Seq<char> {
    match d { Some(d) => " descr=\""@ + xml_escape_spec(d@) + "\""@, None => Seq::empty() }
}

/// The `<a:blip>` element of a picture, when it has an image relationship.
pub open spec fn blip_xml(r: Option<String>) -> Seq<char> {
    match r { Some(r) => "<a:blip r:embed=\""@ + xml_escape_spec(r@) + "\"/>"@, None => Seq::empty() }
}

/// The non-visual properties of a picture (`<p:nvPicPr>`).
pub open spec fn pic_nv_xml(p: Picture) -> Seq<char> {
    "<p:nvPicPr>"@
        + cnvpr_head(p.shape_id, p.name@)
        + descr_attr(p.description)
        + actions_tail(p.click_action, p.hover_action)
        + "<p:cNvPicPr><a:picLocks noChangeAspect=\"1\"/></p:cNvPicPr>"@
        + nvpr_xml(p.placeholder)
        + "</p:nvPicPr>"@
}

/// The image fill of a picture (`<p:blipFill>`).
pub open spec fn blip_fill_xml(p: Picture) -> Seq<char> {
    "<p:blipFill>"@ + blip_xml(p.image_r_id) + src_rect_xml(p) + "<a:stretch><a:fillRect/></a:stretch>"@
        + "</p:blipFill>"@
}

/// The shape properties of a picture (`<p:spPr>`): its transform and clipping geometry.
pub open spec fn pic_sp_pr_xml(p: Picture) -> Seq<char> {
    "<p:spPr>"@
        + xfrm_xml(p.rotation, p.left, p.top, p.width, p.height)
        + "<a:prstGeom prst=\""@
        + (match p.auto_shape_type { Some(t) => t@, None => "rect"@ })
        + "\"><a:avLst/></a:prstGeom>"@
        + "</p:spPr>"@
}

/// The `<p:pic>` element of a picture.
pub open spec fn picture_xml(p: Picture) -> Seq<char> {
    "<p:pic>"@ + pic_nv_xml(p) + blip_fill_xml(p) + pic_sp_pr_xml(p) + "</p:pic>"@
}

/// Appends the opening of `<p:cNvPr>` (see `cnvpr_head`).
#[verifier::rlimit(30)]
fn write_cnvpr_head(out: &mut String, id: ShapeId, name: &str)
    ensures
        final(out)@ == old(out)@ + cnvpr_head(id, name@),
{
    string_push_str(out, "<p:cNvPr id=\"");
    push_u64(out, id.0 as u64);
    string_push_str(out, "\" name=\"");
    push_escaped(out, name);
    string_push_str(out, "\"");
    assert(out@ =~= old(out)@ + cnvpr_head(id, name@));
}

/// Appends the rest of `<p:cNvPr>` (see `actions_tail`).
#[verifier::rlimit(30)]
fn write_actions_tail(out: &mut String, click: &Option<ActionSetting>, hover: &Option<ActionSetting>)
    ensures
        final(out)@ == old(out)@ + actions_tail(*click, *hover),
{
    if click.is_some() || hover.is_some() {
        string_push_str(out, ">");
        let ghost a = out@;
        match click {
            Some(c) => c.write_xml(out, None),
            None => {},
        }
        let ghost b = out@;
        assert(b =~= a + (match *click { Some(c) => action_xml(c, "a:hlinkClick"@, None), None => Seq::empty() }));
        match hover {
            Some(h) => h.write_hover_xml(out, None),
            None => {},
        }
        assert(out@ =~= b + (match *hover { Some(c) => action_xml(c, "a:hlinkHover"@, None), None => Seq::empty() }));
        string_push_str(out, "</p:cNvPr>");
        assert(out@ =~= old(out)@ + actions_tail(*click, *hover));
    } else {
        string_push_str(out, "/>");
    }
}

/// Appends `<p:nvPr>` (see `nvpr_xml`).
#[verifier::rlimit(30)]
fn write_nvpr(out: &mut String, ph: &Option<PlaceholderFormat>)
    ensures
        final(out)@ == old(out)@ + nvpr_xml(*ph),
{
    match ph {
        Some(p) => {
            string_push_str(out, "<p:nvPr><p:ph");
            crate::shapes::placeholder::write_type_attr(out, p.ph_type);
            crate::shapes::placeholder::write_idx_attr(out, p.idx);
            string_push_str(out, "/></p:nvPr>");
            assert(out@ =~= old(out)@ + nvpr_xml(*ph));
        },
        None => {
            string_push_str(out, "<p:nvPr/>");
        },
    }
}

/// Appends `<a:xfrm>` (see `xfrm_xml`).
#[verifier::rlimit(30)]
fn write_xfrm(out: &mut String, rot: i64, left: Emu, top: Emu, width: Emu, height: Emu)
    ensures
        final(out)@ == old(out)@ + xfrm_xml(rot, left, top, width, height),
{
    string_push_str(out, "<a:xfrm");
    if rot != 0 {
        string_push_str(out, " rot=\"");
        push_i64(out, rot);
        string_push_str(out, "\"");
    }
    string_push_str(out, ">");
    write_xfrm_body(out, left, top, width, height);
    assert(out@ =~= old(out)@ + xfrm_xml(rot, left, top, width, height));
}

/// Appends the adjustment guides (see `guides_xml`).
#[verifier::rlimit(30)]
fn write_guides(out: &mut String, adj: &Vec<i64>)
    requires
        adj@.len() < u64::MAX,
    ensures
        final(out)@ == old(out)@ + guides_xml(adj@),
{
    let mut i: usize = 0;
    while i < adj.len()
        invariant
            i <= adj@.len() < u64::MAX,
            out@ == old(out)@ + guides_xml(adj@.take(i as int)),
        decreases adj.len() - i,
    {
        let ghost before = out@;
        string_push_str(out, "<a:gd name=\"adj");
        push_u64(out, (i + 1) as u64);
        string_push_str(out, "\" fmla=\"val ");
        push_i64(out, adj[i]);
        string_push_str(out, "\"/>");
        assert(adj@.take(i as int + 1).drop_last() =~= adj@.take(i as int));
        assert(out@ =~= before + guide_xml((i + 1) as nat, adj@[i as int]));
        i = i + 1;
    }
    assert(adj@.take(i as int) =~= adj@);
}

impl AutoShape {
    #[verifier::rlimit(30)]
    fn write_nv(&self, out: &mut String)
        ensures
            final(out)@ == old(out)@ + sp_nv_xml(*self),
    {
        string_push_str(out, "<p:nvSpPr>");
        write_cnvpr_head(out, self.shape_id, self.name.as_str());
        write_actions_tail(out, &self.click_action, &self.hover_action);
        if self.is_textbox {
            string_push_str(out, "<p:cNvSpPr txBox=\"1\"/>");
        } else {
            string_push_str(out, "<p:cNvSpPr/>");
        }
        write_nvpr(out, &self.placeholder);
        string_push_str(out, "</p:nvSpPr>");
        assert(out@ =~= old(out)@ + sp_nv_xml(*self));
    }

    #[verifier::rlimit(30)]
    fn write_geometry(&self, out: &mut String)
        requires
            self.adjustments@.len() < u64::MAX,
        ensures
            final(out)@ == old(out)@ + geometry_xml(*self),
    {
        match &self.custom_geometry {
            Some(g) => g.write_xml(out),
            None => match &self.prst_geom {
                Some(p) => {
                    string_push_str(out, "<a:prstGeom prst=\"");
                    string_push_str(out, p.as_str());
                    string_push_str(out, "\">");
                    let ghost a0 = out@;
                    if self.adjustments.len() == 0 {
                        string_push_str(out, "<a:avLst/>");
                    } else {
                        string_push_str(out, "<a:avLst>");
                        write_guides(out, &self.adjustments);
                        string_push_str(out, "</a:avLst>");
                    }
                    assert(out@ =~= a0 + av_list_xml(self.adjustments@));
                    string_push_str(out, "</a:prstGeom>");
                },
                None => {},
            },
        }
        assert(out@ =~= old(out)@ + geometry_xml(*self));
    }

    #[verifier::rlimit(30)]
    fn write_sp_pr(&self, out: &mut String)
        requires
            self.adjustments@.len() < u64::MAX,
        ensures
            final(out)@ == old(out)@ + sp_pr_xml(*self),
    {
        string_push_str(out, "<p:spPr>");
        write_xfrm(out, self.rotation, self.left, self.top, self.width, self.height);
        self.write_geometry(out);
        match &self.fill {
            Some(f) => push_fill(out, f),
            None => {},
        }
        match &self.line {
            Some(l) => push_line(out, l),
            None => {},
        }
        string_push_str(out, "</p:spPr>");
        assert(out@ =~= old(out)@ + sp_pr_xml(*self));
    }

    /// Appends the `<p:sp>` element of this shape (see `autoshape_xml`).
    #[verifier::rlimit(30)]
    pub fn write_xml(&self, out: &mut String)
        requires
            self.adjustments@.len() < u64::MAX,
        ensures
            final(out)@ == old(out)@ + autoshape_xml(*self),
    {
        string_push_str(out, "<p:sp>");
        self.write_nv(out);
        self.write_sp_pr(out);
        let ghost t0 = out@;
        match &self.text_frame {
            Some(f) => {
                let t = f.to_xml_string();
                string_push_str(out, t.as_str());
            },
            None => match &self.tx_body_xml {
            Some(b) => {
                if b.len() > 0 {
                    let t = crate::text::string_from_utf8_lossy(b.as_slice());
                    string_push_str(out, t.as_str());
                } else {
                    string_push_str(out, "<p:txBody><a:bodyPr/><a:lstStyle/><a:p><a:endParaRPr lang=\"en-US\"/></a:p></p:txBody>");
                }
            },
            None => {
                string_push_str(out, "<p:txBody><a:bodyPr/><a:lstStyle/><a:p><a:endParaRPr lang=\"en-US\"/></a:p></p:txBody>");
            },
            },
        }
        assert(out@ =~= t0 + tx_body_part(*self));
        string_push_str(out, "</p:sp>");
        assert(out@ =~= old(out)@ + autoshape_xml(*self));
    }

    /// The `<p:sp>` element of this shape as a string.
    pub fn to_xml_string(&self) -> (r: String)
        requires
            self.adjustments@.len() < u64::MAX,
        ensures
            r@ == autoshape_xml(*self),
    {
        let mut s = String::new();
        self.write_xml(&mut s);
        assert(s@ =~= autoshape_xml(*self));
        s
    }
}

/// Appends one crop attribute (see `crop_attr`).
#[verifier::rlimit(30)]
fn write_crop_attr(out: &mut String, key: &str, v: i64)
    ensures
        final(out)@ == old(out)@ + crop_attr(key@, v),
{
    if v > 0 {
        string_push_str(out, " ");
        string_push_str(out, key);
        string_push_str(out, "=\"");
        push_i64(out, v);
        string_push_str(out, "\"");
    }
    assert(out@ =~= old(out)@ + crop_attr(key@, v));
}

impl Picture {
    #[verifier::rlimit(30)]
    fn write_nv(&self, out: &mut String)
        ensures
            final(out)@ == old(out)@ + pic_nv_xml(*self),
    {
        string_push_str(out, "<p:nvPicPr>");
        write_cnvpr_head(out, self.shape_id, self.name.as_str());
        let ghost d0 = out@;
        match &self.description {
            Some(d) => {
                string_push_str(out, " descr=\"");
                push_escaped(out, d.as_str());
                string_push_str(out, "\"");
            },
            None => {},
        }
        assert(out@ =~= d0 + descr_attr(self.description));
        write_actions_tail(out, &self.click_action, &self.hover_action);
        string_push_str(out, "<p:cNvPicPr><a:picLocks noChangeAspect=\"1\"/></p:cNvPicPr>");
        write_nvpr(out, &self.placeholder);
        string_push_str(out, "</p:nvPicPr>");
        assert(out@ =~= old(out)@ + pic_nv_xml(*self));
    }

    #[verifier::rlimit(30)]
    fn write_src_rect(&self, out: &mut String)
        ensures
            final(out)@ == old(out)@ + src_rect_xml(*self),
    {
        if self.crop_left > 0 || self.crop_top > 0 || self.crop_right > 0 || self.crop_bottom > 0 {
            string_push_str(out, "<a:srcRect");
            write_crop_attr(out, "l", self.crop_left);
            write_crop_attr(out, "t", self.crop_top);
            write_crop_attr(out, "r", self.crop_right);
            write_crop_attr(out, "b", self.crop_bottom);
            string_push_str(out, "/>");
        }
        assert(out@ =~= old(out)@ + src_rect_xml(*self));
    }

    #[verifier::rlimit(30)]
    fn write_blip_fill(&self, out: &mut String)
        ensures
            final(out)@ == old(out)@ + blip_fill_xml(*self),
    {
        string_push_str(out, "<p:blipFill>");
        let ghost b0 = out@;
        match &self.image_r_id {
            Some(r) => {
                string_push_str(out, "<a:blip r:embed=\"");
                push_escaped(out, r.as_str());
                string_push_str(out, "\"/>");
            },
            None => {},
        }
        assert(out@ =~= b0 + blip_xml(self.image_r_id));
        self.write_src_rect(out);
        string_push_str(out, "<a:stretch><a:fillRect/></a:stretch>");
        string_push_str(out, "</p:blipFill>");
        assert(out@ =~= old(out)@ + blip_fill_xml(*self));
    }

    #[verifier::rlimit(30)]
    fn write_sp_pr(&self, out: &mut String)
        ensures
            final(out)@ == old(out)@ + pic_sp_pr_xml(*self),
    {
        string_push_str(out, "<p:spPr>");
        write_xfrm(out, self.rotation, self.left, self.top, self.width, self.height);
        string_push_str(out, "<a:prstGeom prst=\"");
        match &self.auto_shape_type {
            Some(t) => string_push_str(out, t.as_str()),
            None => string_push_str(out, "rect"),
        }
        string_push_str(out, "\"><a:avLst/></a:prstGeom>");
        string_push_str(out, "</p:spPr>");
        assert(out@ =~= old(out)@ + pic_sp_pr_xml(*self));
    }

    /// Appends the `<p:pic>` element of this picture (see `picture_xml`).
    #[verifier::rlimit(30)]
    pub fn write_xml(&self, out: &mut String)
        ensures
            final(out)@ == old(out)@ + picture_xml(*self),
    {
        string_push_str(out, "<p:pic>");
        self.write_nv(out);
        self.write_blip_fill(out);
        self.write_sp_pr(out);
        string_push_str(out, "</p:pic>");
        assert(out@ =~= old(out)@ + picture_xml(*self));
    }

    /// The `<p:pic>` element of this picture as a string.
    pub fn to_xml_string(&self) -> (r: String)
        ensures
            r@ == picture_xml(*self),
    {
        let mut s = String::new();
        self.write_xml(&mut s);
        assert(s@ =~= picture_xml(*self));
        s
    }
}


/// The id, name, position, size and rotation that every shape has.
pub open spec fn common_of(s: Shape) -> (ShapeId, Seq<char>, Emu, Emu, Emu, Emu, i64) {
    match s {
        Shape::AutoShape(x) => (x.shape_id, x.name@, x.left, x.top, x.width, x.height, x.rotation),
        Shape::Picture(x) => (x.shape_id, x.name@, x.left, x.top, x.width, x.height, x.rotation),
        Shape::GraphicFrame(x) => (x.shape_id, x.name@, x.left, x.top, x.width, x.height, x.rotation),
        Shape::Connector(x) => (x.shape_id, x.name@, x.left, x.top, x.width, x.height, x.rotation),
        Shape::GroupShape(x) => (x.shape_id, x.name@, x.left, x.top, x.width, x.height, x.rotation),
        Shape::OleObject(x) => (x.shape_id, x.name@, x.left, x.top, x.width, x.height, x.rotation),
    }
}

/// The placeholder of a shape: shapes, pictures and graphic frames can be placeholders.
pub open spec fn placeholder_of_shape(s: Shape) -> Option<PlaceholderFormat> {
    match s {
        Shape::AutoShape(x) => x.placeholder,
        Shape::Picture(x) => x.placeholder,
        Shape::GraphicFrame(x) => x.placeholder,
        _ => None,
    }
}

/// The `uri` of the graphic data of a SmartArt diagram.
pub open spec fn diagram_uri() -> Seq<char> {
    "http://schemas.openxmlformats.org/drawingml/2006/diagram"@
}

impl GraphicFrame {
    /// Whether the frame holds a SmartArt diagram: it names a diagram's data relationship,
    /// or its graphic data has the diagram `uri`.
    pub fn has_smartart(&self) -> (r: bool)
        ensures
            r == (self.smartart_r_id is Some || (self.graphic_data_uri matches Some(u) && u@ == diagram_uri())),
    {
        if self.smartart_r_id.is_some() {
            return true;
        }
        match &self.graphic_data_uri {
            Some(u) => crate::enums::str_eq(u.as_str(), "http://schemas.openxmlformats.org/drawingml/2006/diagram"),
            None => false,
        }
    }
}

impl Shape {
    /// The shape as an auto shape, or `None` when it is another kind.
    pub fn as_autoshape(&self) -> (r: Option<&AutoShape>)
        ensures
            match *self {
                Shape::AutoShape(x) => r == Some(&x),
                _ => r is None,
            },
    {
        match self {
            Shape::AutoShape(x) => Some(x),
            _ => None,
        }
    }

    /// The shape as a picture, or `None` when it is another kind.
    pub fn as_picture(&self) -> (r: Option<&Picture>)
        ensures
            match *self {
                Shape::Picture(x) => r == Some(&x),
                _ => r is None,
            },
    {
        match self {
            Shape::Picture(x) => Some(x),
            _ => None,
        }
    }

    /// The shape as a graphic frame, or `None` when it is another kind.
    pub fn as_graphic_frame(&self) -> (r: Option<&GraphicFrame>)
        ensures
            match *self {
                Shape::GraphicFrame(x) => r == Some(&x),
                _ => r is None,
            },
    {
        match self {
            Shape::GraphicFrame(x) => Some(x),
            _ => None,
        }
    }

    /// The shape as a connector, or `None` when it is another kind.
    pub fn as_connector(&self) -> (r: Option<&Connector>)
        ensures
            match *self {
                Shape::Connector(x) => r == Some(&x),
                _ => r is None,
            },
    {
        match self {
            Shape::Connector(x) => Some(x),
            _ => None,
        }
    }

    /// The shape as a group, or `None` when it is another kind.
    pub fn as_group(&self) -> (r: Option<&GroupShape>)
        ensures
            match *self {
                Shape::GroupShape(x) => r == Some(&x),
                _ => r is None,
            },
    {
        match self {
            Shape::GroupShape(x) => Some(x),
            _ => None,
        }
    }

    /// The shape as an OLE object, or `None` when it is another kind.
    pub fn as_ole_object(&self) -> (r: Option<&OleObject>)
        ensures
            match *self {
                Shape::OleObject(x) => r == Some(&x),
                _ => r is None,
            },
    {
        match self {
            Shape::OleObject(x) => Some(x),
            _ => None,
        }
    }

    /// The shape's id.
    pub fn shape_id(&self) -> (r: ShapeId)
        ensures
            r == common_of(*self).0,
    {
        match self {
            Shape::AutoShape(x) => x.shape_id,
            Shape::Picture(x) => x.shape_id,
            Shape::GraphicFrame(x) => x.shape_id,
            Shape::Connector(x) => x.shape_id,
            Shape::GroupShape(x) => x.shape_id,
            Shape::OleObject(x) => x.shape_id,
        }
    }

    /// The shape's name.
    pub fn name(&self) -> (r: &str)
        ensures
            r@ == common_of(*self).1,
    {
        match self {
            Shape::AutoShape(x) => x.name.as_str(),
            Shape::Picture(x) => x.name.as_str(),
            Shape::GraphicFrame(x) => x.name.as_str(),
            Shape::Connector(x) => x.name.as_str(),
            Shape::GroupShape(x) => x.name.as_str(),
            Shape::OleObject(x) => x.name.as_str(),
        }
    }

    /// The shape's left edge.
    pub fn left(&self) -> (r: Emu)
        ensures
            r == common_of(*self).2,
    {
        match self {
            Shape::AutoShape(x) => x.left,
            Shape::Picture(x) => x.left,
            Shape::GraphicFrame(x) => x.left,
            Shape::Connector(x) => x.left,
            Shape::GroupShape(x) => x.left,
            Shape::OleObject(x) => x.left,
        }
    }

    /// The shape's top edge.
    pub fn top(&self) -> (r: Emu)
        ensures
            r == common_of(*self).3,
    {
        match self {
            Shape::AutoShape(x) => x.top,
            Shape::Picture(x) => x.top,
            Shape::GraphicFrame(x) => x.top,
            Shape::Connector(x) => x.top,
            Shape::GroupShape(x) => x.top,
            Shape::OleObject(x) => x.top,
        }
    }

    /// The shape's width.
    pub fn width(&self) -> (r: Emu)
        ensures
            r == common_of(*self).4,
    {
        match self {
            Shape::AutoShape(x) => x.width,
            Shape::Picture(x) => x.width,
            Shape::GraphicFrame(x) => x.width,
            Shape::Connector(x) => x.width,
            Shape::GroupShape(x) => x.width,
            Shape::OleObject(x) => x.width,
        }
    }

    /// The shape's height.
    pub fn height(&self) -> (r: Emu)
        ensures
            r == common_of(*self).5,
    {
        match self {
            Shape::AutoShape(x) => x.height,
            Shape::Picture(x) => x.height,
            Shape::GraphicFrame(x) => x.height,
            Shape::Connector(x) => x.height,
            Shape::GroupShape(x) => x.height,
            Shape::OleObject(x) => x.height,
        }
    }

    /// The shape's rotation, in 60000ths of a degree.
    pub fn rotation(&self) -> (r: i64)
        ensures
            r == common_of(*self).6,
    {
        match self {
            Shape::AutoShape(x) => x.rotation,
            Shape::Picture(x) => x.rotation,
            Shape::GraphicFrame(x) => x.rotation,
            Shape::Connector(x) => x.rotation,
            Shape::GroupShape(x) => x.rotation,
            Shape::OleObject(x) => x.rotation,
        }
    }

    /// Whether the shape has a text body: only a shape (`<p:sp>`) can.
    pub fn has_text_frame(&self) -> (r: bool)
        ensures
            r == (*self matches Shape::AutoShape(x) && (x.text_frame is Some || x.tx_body_xml is Some)),
    {
        match self {
            Shape::AutoShape(x) => x.text_frame.is_some() || x.tx_body_xml.is_some(),
            _ => false,
        }
    }

    /// Whether the shape is a graphic frame that holds a table.
    pub fn has_table(&self) -> (r: bool)
        ensures
            r == (*self matches Shape::GraphicFrame(x) && x.has_table),
    {
        match self {
            Shape::GraphicFrame(x) => x.has_table,
            _ => false,
        }
    }

    /// The shape's placeholder properties, when it is a placeholder.
    pub fn placeholder(&self) -> (r: Option<&PlaceholderFormat>)
        ensures
            match placeholder_of_shape(*self) {
                Some(p) => r matches Some(x) && *x == p,
                None => r is None,
            },
    {
        match self {
            Shape::AutoShape(x) => x.placeholder.as_ref(),
            Shape::Picture(x) => x.placeholder.as_ref(),
            Shape::GraphicFrame(x) => x.placeholder.as_ref(),
            _ => None,
        }
    }

    /// Whether the shape is a placeholder.
    pub fn is_placeholder(&self) -> (r: bool)
        ensures
            r == placeholder_of_shape(*self) is Some,
    {
        match self {
            Shape::AutoShape(x) => x.placeholder.is_some(),
            Shape::Picture(x) => x.placeholder.is_some(),
            Shape::GraphicFrame(x) => x.placeholder.is_some(),
            _ => false,
        }
    }
}


/// One connection reference (`<a:stCxn>` or `<a:endCxn>`), when both its shape and its point are set.
pub open spec fn cxn_ref_xml(tag: Seq<char>, sid: Option<ShapeId>, idx: Option<u32>) -> Seq<char> {
    match (sid, idx) {
        (Some(s), Some(i)) => "<"@ + tag + " id=\""@ + nat_digits(s.0 as nat) + "\" idx=\""@ + nat_digits(i as nat) + "\"/>"@,
        _ => Seq::empty(),
    }
}

/// `<p:cNvCxnSpPr>`: the connection references when the connector is attached to a shape.
pub open spec fn cnv_cxn_xml(c: Connector) -> Seq<char> {
    if c.begin_shape_id is Some || c.end_shape_id is Some {
        "<p:cNvCxnSpPr>"@ + cxn_ref_xml("a:stCxn"@, c.begin_shape_id, c.begin_cxn_idx)
            + cxn_ref_xml("a:endCxn"@, c.end_shape_id, c.end_cxn_idx) + "</p:cNvCxnSpPr>"@
    } else {
        "<p:cNvCxnSpPr/>"@
    }
}

/// The start tag of a connector's transform: rotation when not zero, then the flips.
pub open spec fn cxn_xfrm_head(c: Connector) -> Seq<char> {
    "<a:xfrm"@
        + (if c.rotation != 0 { " rot=\""@ + int_text(c.rotation as int) + "\""@ } else { Seq::empty() })
        + (if c.flip_h { " flipH=\"1\""@ } else { Seq::empty() })
        + (if c.flip_v { " flipV=\"1\""@ } else { Seq::empty() })
        + ">"@
}

/// The offset and extent of a transform, and its end tag.
pub open spec fn xfrm_body(left: Emu, top: Emu, width: Emu, height: Emu) -> Seq<char> {
    "<a:off x=\""@ + int_text(left.0 as int) + "\" y=\""@ + int_text(top.0 as int) + "\"/>"@
        + "<a:ext cx=\""@ + int_text(width.0 as int) + "\" cy=\""@ + int_text(height.0 as int) + "\"/>"@
        + "</a:xfrm>"@
}

/// The transform of a connector: rotation when not zero, then the flips, offset and extent.
pub open spec fn cxn_xfrm_xml(c: Connector) -> Seq<char> {
    cxn_xfrm_head(c) + xfrm_body(c.left, c.top, c.width, c.height)
}

/// The non-visual properties of a connector (`<p:nvCxnSpPr>`).
pub open spec fn cxn_nv_xml(c: Connector) -> Seq<char> {
    "<p:nvCxnSpPr>"@ + cnvpr_head(c.shape_id, c.name@) + "/>"@ + cnv_cxn_xml(c) + "<p:nvPr/>"@ + "</p:nvCxnSpPr>"@
}

/// The shape properties of a connector (`<p:spPr>`): its transform and preset geometry.
pub open spec fn cxn_sp_pr_xml(c: Connector) -> Seq<char> {
    "<p:spPr>"@ + cxn_xfrm_xml(c)
        + (match c.prst_geom { Some(p) => "<a:prstGeom prst=\""@ + p@ + "\"><a:avLst/></a:prstGeom>"@, None => Seq::empty() })
        + "</p:spPr>"@
}

/// The `<p:cxnSp>` element of a connector.
pub open spec fn connector_xml(c: Connector) -> Seq<char> {
    "<p:cxnSp>"@ + cxn_nv_xml(c) + cxn_sp_pr_xml(c) + "</p:cxnSp>"@
}

/// Appends the offset, extent and end tag of a transform (see `xfrm_body`).
#[verifier::rlimit(30)]
fn write_xfrm_body(out: &mut String, left: Emu, top: Emu, width: Emu, height: Emu)
    ensures
        final(out)@ == old(out)@ + xfrm_body(left, top, width, height),
{
    string_push_str(out, "<a:off x=\"");
    push_i64(out, left.0);
    string_push_str(out, "\" y=\"");
    push_i64(out, top.0);
    string_push_str(out, "\"/>");
    string_push_str(out, "<a:ext cx=\"");
    push_i64(out, width.0);
    string_push_str(out, "\" cy=\"");
    push_i64(out, height.0);
    string_push_str(out, "\"/>");
    string_push_str(out, "</a:xfrm>");
    assert(out@ =~= old(out)@ + xfrm_body(left, top, width, height));
}

/// Appends one connection reference (see `cxn_ref_xml`).
#[verifier::rlimit(30)]
fn write_cxn_ref(out: &mut String, tag: &str, sid: Option<ShapeId>, idx: Option<u32>)
    ensures
        final(out)@ == old(out)@ + cxn_ref_xml(tag@, sid, idx),
{
    match (sid, idx) {
        (Some(s), Some(i)) => {
            string_push_str(out, "<");
            string_push_str(out, tag);
            string_push_str(out, " id=\"");
            push_u64(out, s.0 as u64);
            string_push_str(out, "\" idx=\"");
            push_u64(out, i as u64);
            string_push_str(out, "\"/>");
        },
        _ => {},
    }
    assert(out@ =~= old(out)@ + cxn_ref_xml(tag@, sid, idx));
}

impl Connector {
    /// A connector with no geometry, flips or connections.
    pub fn new(shape_id: ShapeId, name: &str, left: Emu, top: Emu, width: Emu, height: Emu) -> (r: Connector)
        ensures
            r.shape_id == shape_id && r.name@ == name@,
            r.left == left && r.top == top && r.width == width && r.height == height,
            r.rotation == 0 && !r.flip_h && !r.flip_v && r.prst_geom is None,
            r.begin_shape_id is None && r.begin_cxn_idx is None && r.end_shape_id is None && r.end_cxn_idx is None,
    {
        Connector {
            shape_id,
            name: name.to_owned(),
            left,
            top,
            width,
            height,
            rotation: 0,
            flip_h: false,
            flip_v: false,
            prst_geom: None,
            begin_shape_id: None,
            begin_cxn_idx: None,
            end_shape_id: None,
            end_cxn_idx: None,
        }
    }

    /// A straight line connector (`prst="line"`).
    pub fn line(shape_id: ShapeId, name: &str, left: Emu, top: Emu, width: Emu, height: Emu) -> (r: Connector)
        ensures
            r.shape_id == shape_id && r.name@ == name@,
            r.left == left && r.top == top && r.width == width && r.height == height,
            r.rotation == 0 && !r.flip_h && !r.flip_v && opt_text(r.prst_geom) == Some("line"@),
            r.begin_shape_id is None && r.begin_cxn_idx is None && r.end_shape_id is None && r.end_cxn_idx is None,
    {
        let mut c = Connector::new(shape_id, name, left, top, width, height);
        c.prst_geom = Some("line".to_owned());
        c
    }

    #[verifier::rlimit(30)]
    fn write_nv(&self, out: &mut String)
        ensures
            final(out)@ == old(out)@ + cxn_nv_xml(*self),
    {
        string_push_str(out, "<p:nvCxnSpPr>");
        write_cnvpr_head(out, self.shape_id, self.name.as_str());
        string_push_str(out, "/>");
        let ghost c0 = out@;
        if self.begin_shape_id.is_some() || self.end_shape_id.is_some() {
            string_push_str(out, "<p:cNvCxnSpPr>");
            write_cxn_ref(out, "a:stCxn", self.begin_shape_id, self.begin_cxn_idx);
            write_cxn_ref(out, "a:endCxn", self.end_shape_id, self.end_cxn_idx);
            string_push_str(out, "</p:cNvCxnSpPr>");
        } else {
            string_push_str(out, "<p:cNvCxnSpPr/>");
        }
        assert(out@ =~= c0 + cnv_cxn_xml(*self));
        string_push_str(out, "<p:nvPr/>");
        string_push_str(out, "</p:nvCxnSpPr>");
        assert(out@ =~= old(out)@ + cxn_nv_xml(*self));
    }

    #[verifier::rlimit(30)]
    fn write_xfrm_head(&self, out: &mut String)
        ensures
            final(out)@ == old(out)@ + cxn_xfrm_head(*self),
    {
        string_push_str(out, "<a:xfrm");
        if self.rotation != 0 {
            string_push_str(out, " rot=\"");
            push_i64(out, self.rotation);
            string_push_str(out, "\"");
        }
        if self.flip_h {
            string_push_str(out, " flipH=\"1\"");
        }
        if self.flip_v {
            string_push_str(out, " flipV=\"1\"");
        }
        string_push_str(out, ">");
        assert(out@ =~= old(out)@ + cxn_xfrm_head(*self));
    }

    #[verifier::rlimit(30)]
    fn write_xfrm(&self, out: &mut String)
        ensures
            final(out)@ == old(out)@ + cxn_xfrm_xml(*self),
    {
        self.write_xfrm_head(out);
        write_xfrm_body(out, self.left, self.top, self.width, self.height);
        assert(out@ =~= old(out)@ + cxn_xfrm_xml(*self));
    }

    #[verifier::rlimit(30)]
    fn write_sp_pr(&self, out: &mut String)
        ensures
            final(out)@ == old(out)@ + cxn_sp_pr_xml(*self),
    {
        string_push_str(out, "<p:spPr>");
        self.write_xfrm(out);
        let ghost g0 = out@;
        match &self.prst_geom {
            Some(p) => {
                string_push_str(out, "<a:prstGeom prst=\"");
                string_push_str(out, p.as_str());
                string_push_str(out, "\"><a:avLst/></a:prstGeom>");
            },
            None => {},
        }
        assert(out@ =~= g0 + (match self.prst_geom { Some(p) => "<a:prstGeom prst=\""@ + p@ + "\"><a:avLst/></a:prstGeom>"@, None => Seq::empty() }));
        string_push_str(out, "</p:spPr>");
        assert(out@ =~= old(out)@ + cxn_sp_pr_xml(*self));
    }

    /// Appends the `<p:cxnSp>` element of this connector (see `connector_xml`).
    #[verifier::rlimit(30)]
    pub fn write_xml(&self, out: &mut String)
        ensures
            final(out)@ == old(out)@ + connector_xml(*self),
    {
        string_push_str(out, "<p:cxnSp>");
        self.write_nv(out);
        self.write_sp_pr(out);
        string_push_str(out, "</p:cxnSp>");
        assert(out@ =~= old(out)@ + connector_xml(*self));
    }

    /// The `<p:cxnSp>` element of this connector as a string.
    pub fn to_xml_string(&self) -> (r: String)
        ensures
            r@ == connector_xml(*self),
    {
        let mut s = String::new();
        self.write_xml(&mut s);
        assert(s@ =~= connector_xml(*self));
        s
    }
}


impl AutoShape {
    /// A shape with no geometry, text box flag, placeholder, text body, actions or adjustments.
    pub fn new(shape_id: ShapeId, name: &str, left: Emu, top: Emu, width: Emu, height: Emu) -> (r: AutoShape)
        ensures
            r.shape_id == shape_id && r.name@ == name@,
            r.left == left && r.top == top && r.width == width && r.height == height,
            r.rotation == 0 && r.prst_geom is None && !r.is_textbox && r.placeholder is None,
            r.tx_body_xml is None && r.text_frame is None && r.fill is None && r.line is None && r.click_action is None && r.hover_action is None,
            r.adjustments@.len() == 0 && r.custom_geometry is None,
    {
        AutoShape {
            shape_id,
            name: name.to_owned(),
            left,
            top,
            width,
            height,
            rotation: 0,
            prst_geom: None,
            is_textbox: false,
            placeholder: None,
            tx_body_xml: None,
            text_frame: None,
            fill: None,
            line: None,
            click_action: None,
            hover_action: None,
            adjustments: Vec::new(),
            custom_geometry: None,
        }
    }

    /// A text box: a rectangle flagged as a text box.
    pub fn textbox(shape_id: ShapeId, name: &str, left: Emu, top: Emu, width: Emu, height: Emu) -> (r: AutoShape)
        ensures
            r.shape_id == shape_id && r.name@ == name@,
            r.left == left && r.top == top && r.width == width && r.height == height,
            r.rotation == 0 && opt_text(r.prst_geom) == Some("rect"@) && r.is_textbox && r.placeholder is None,
            r.tx_body_xml is None && r.text_frame is None && r.fill is None && r.line is None && r.click_action is None && r.hover_action is None,
            r.adjustments@.len() == 0 && r.custom_geometry is None,
    {
        let mut s = AutoShape::new(shape_id, name, left, top, width, height);
        s.is_textbox = true;
        s.prst_geom = Some("rect".to_owned());
        s
    }

    /// A shape with the given preset geometry token.
    pub fn with_geometry(shape_id: ShapeId, name: &str, left: Emu, top: Emu, width: Emu, height: Emu, prst_geom: &str) -> (r: AutoShape)
        ensures
            r.shape_id == shape_id && r.name@ == name@,
            r.left == left && r.top == top && r.width == width && r.height == height,
            r.rotation == 0 && opt_text(r.prst_geom) == Some(prst_geom@) && !r.is_textbox && r.placeholder is None,
            r.tx_body_xml is None && r.text_frame is None && r.fill is None && r.line is None && r.click_action is None && r.hover_action is None,
            r.adjustments@.len() == 0 && r.custom_geometry is None,
    {
        let mut s = AutoShape::new(shape_id, name, left, top, width, height);
        s.prst_geom = Some(prst_geom.to_owned());
        s
    }

    /// Whether the shape has a text body.
    pub fn has_text_frame(&self) -> (r: bool)
        ensures
            r == (self.text_frame is Some || self.tx_body_xml is Some),
    {
        self.text_frame.is_some() || self.tx_body_xml.is_some()
    }
}

impl Picture {
    /// A picture of the image with relationship id `image_r_id`, uncropped and unrotated.
    pub fn new(shape_id: ShapeId, name: &str, left: Emu, top: Emu, width: Emu, height: Emu, image_r_id: &str) -> (r: Picture)
        ensures
            r.shape_id == shape_id && r.name@ == name@,
            r.left == left && r.top == top && r.width == width && r.height == height,
            r.rotation == 0 && opt_text(r.image_r_id) == Some(image_r_id@),
            r.description is None && r.placeholder is None,
            r.crop_left == 0 && r.crop_right == 0 && r.crop_top == 0 && r.crop_bottom == 0,
            r.click_action is None && r.hover_action is None && r.auto_shape_type is None,
    {
        Picture {
            shape_id,
            name: name.to_owned(),
            left,
            top,
            width,
            height,
            rotation: 0,
            image_r_id: Some(image_r_id.to_owned()),
            description: None,
            placeholder: None,
            crop_left: 0,
            crop_right: 0,
            crop_top: 0,
            crop_bottom: 0,
            click_action: None,
            hover_action: None,
            auto_shape_type: None,
        }
    }
}


/// The largest crop value: the whole side, in 100000ths.
pub const CROP_FULL: i64 = 100000;

/// Whether a crop value is in range: from none (0) to the whole side (`CROP_FULL`).
pub open spec fn crop_ok(v: i64) -> bool {
    0 <= v <= CROP_FULL
}

fn check_crop(v: i64) -> (r: Result<(), PptxError>)
    ensures
        r is Ok <==> crop_ok(v),
        r matches Err(e) ==> e is InvalidValue,
{
    if v < 0 || v > CROP_FULL {
        Err(PptxError::InvalidValue("a crop value must be from 0 to 100000".to_owned()))
    } else {
        Ok(())
    }
}

impl Picture {
    /// Sets the crop of all four sides (each in 100000ths of the image); refused
    /// (`PptxError::InvalidValue`), with the picture unchanged, when a value is out of range.
    pub fn set_crop(&mut self, left: i64, top: i64, right: i64, bottom: i64) -> (r: Result<(), PptxError>)
        ensures
            r is Ok <==> (crop_ok(left) && crop_ok(top) && crop_ok(right) && crop_ok(bottom)),
            r matches Err(e) ==> e is InvalidValue && *final(self) == *old(self),
            r is Ok ==> *final(self) == (Picture { crop_left: left, crop_top: top, crop_right: right, crop_bottom: bottom, ..*old(self) }),
    {
        check_crop(left)?;
        check_crop(top)?;
        check_crop(right)?;
        check_crop(bottom)?;
        self.crop_left = left;
        self.crop_top = top;
        self.crop_right = right;
        self.crop_bottom = bottom;
        Ok(())
    }

    /// Sets the left crop (see `set_crop`).
    pub fn set_crop_left(&mut self, value: i64) -> (r: Result<(), PptxError>)
        ensures
            r is Ok <==> crop_ok(value),
            r matches Err(e) ==> e is InvalidValue && *final(self) == *old(self),
            r is Ok ==> *final(self) == (Picture { crop_left: value, ..*old(self) }),
    {
        check_crop(value)?;
        self.crop_left = value;
        Ok(())
    }

    /// Sets the top crop (see `set_crop`).
    pub fn set_crop_top(&mut self, value: i64) -> (r: Result<(), PptxError>)
        ensures
            r is Ok <==> crop_ok(value),
            r matches Err(e) ==> e is InvalidValue && *final(self) == *old(self),
            r is Ok ==> *final(self) == (Picture { crop_top: value, ..*old(self) }),
    {
        check_crop(value)?;
        self.crop_top = value;
        Ok(())
    }

    /// Sets the right crop (see `set_crop`).
    pub fn set_crop_right(&mut self, value: i64) -> (r: Result<(), PptxError>)
        ensures
            r is Ok <==> crop_ok(value),
            r matches Err(e) ==> e is InvalidValue && *final(self) == *old(self),
            r is Ok ==> *final(self) == (Picture { crop_right: value, ..*old(self) }),
    {
        check_crop(value)?;
        self.crop_right = value;
        Ok(())
    }

    /// Sets the bottom crop (see `set_crop`).
    pub fn set_crop_bottom(&mut self, value: i64) -> (r: Result<(), PptxError>)
        ensures
            r is Ok <==> crop_ok(value),
            r matches Err(e) ==> e is InvalidValue && *final(self) == *old(self),
            r is Ok ==> *final(self) == (Picture { crop_bottom: value, ..*old(self) }),
    {
        check_crop(value)?;
        self.crop_bottom = value;
        Ok(())
    }

    /// Sets the click action.
    pub fn set_click_action(&mut self, action: ActionSetting)
        ensures
            *final(self) == (Picture { click_action: Some(action), ..*old(self) }),
    {
        self.click_action = Some(action);
    }

    /// Sets the hover action.
    pub fn set_hover_action(&mut self, action: ActionSetting)
        ensures
            *final(self) == (Picture { hover_action: Some(action), ..*old(self) }),
    {
        self.hover_action = Some(action);
    }

    /// Clips the picture to the preset geometry with the given token.
    pub fn set_auto_shape_type(&mut self, prst: &str)
        ensures
            opt_text(final(self).auto_shape_type) == Some(prst@),
            final(self).crop_left == old(self).crop_left && final(self).name == old(self).name,
    {
        self.auto_shape_type = Some(prst.to_owned());
    }
}

impl AutoShape {
    /// Sets the click action.
    pub fn set_click_action(&mut self, action: ActionSetting)
        ensures
            *final(self) == (AutoShape { click_action: Some(action), ..*old(self) }),
    {
        self.click_action = Some(action);
    }

    /// Sets the hover action.
    pub fn set_hover_action(&mut self, action: ActionSetting)
        ensures
            *final(self) == (AutoShape { hover_action: Some(action), ..*old(self) }),
    {
        self.hover_action = Some(action);
    }
}

impl Connector {
    /// The x coordinate where the connector begins: its left edge, or its right edge when
    /// flipped horizontally.
    pub fn begin_x(&self) -> (r: Emu)
        requires
            i64::MIN <= self.left.0 + self.width.0 <= i64::MAX,
        ensures
            r.0 == if self.flip_h { self.left.0 + self.width.0 } else { self.left.0 as int },
    {
        if self.flip_h { Emu(self.left.0 + self.width.0) } else { self.left }
    }

    /// The y coordinate where the connector begins: its top edge, or its bottom edge when
    /// flipped vertically.
    pub fn begin_y(&self) -> (r: Emu)
        requires
            i64::MIN <= self.top.0 + self.height.0 <= i64::MAX,
        ensures
            r.0 == if self.flip_v { self.top.0 + self.height.0 } else { self.top.0 as int },
    {
        if self.flip_v { Emu(self.top.0 + self.height.0) } else { self.top }
    }

    /// The x coordinate where the connector ends: the edge across from its beginning.
    pub fn end_x(&self) -> (r: Emu)
        requires
            i64::MIN <= self.left.0 + self.width.0 <= i64::MAX,
        ensures
            r.0 == if self.flip_h { self.left.0 as int } else { self.left.0 + self.width.0 },
    {
        if self.flip_h { self.left } else { Emu(self.left.0 + self.width.0) }
    }

    /// The y coordinate where the connector ends: the edge across from its beginning.
    pub fn end_y(&self) -> (r: Emu)
        requires
            i64::MIN <= self.top.0 + self.height.0 <= i64::MAX,
        ensures
            r.0 == if self.flip_v { self.top.0 as int } else { self.top.0 + self.height.0 },
    {
        if self.flip_v { self.top } else { Emu(self.top.0 + self.height.0) }
    }
}

/// The URI of the graphic data of an OLE object.
pub open spec fn ole_uri() -> Seq<char> {
    "http://schemas.openxmlformats.org/presentationml/2006/ole"@
}

/// The `<p:oleObj>` element: program id and relationship id, then the embed marker and,
/// with an icon, its size attributes and the icon picture.
pub open spec fn ole_obj_xml(o: OleObject) -> Seq<char> {
    "<p:oleObj progId=\""@ + o.prog_id@ + "\""@
        + (match o.r_id { Some(r) => " r:id=\""@ + xml_escape_spec(r@) + "\""@, None => Seq::empty() })
        + (match o.icon_r_id {
            Some(ic) => " imgW=\""@ + int_text(o.width.0 as int) + "\" imgH=\""@ + int_text(o.height.0 as int) + "\""@ + ">"@
                + "<p:embed/><p:pic><p:nvPicPr><p:cNvPr id=\"0\" name=\"\"/><p:cNvPicPr/><p:nvPr/></p:nvPicPr><p:blipFill><a:blip r:embed=\""@
                + xml_escape_spec(ic@)
                + "\"/><a:stretch><a:fillRect/></a:stretch></p:blipFill><p:spPr><a:xfrm>"@
                + xfrm_body(o.left, o.top, o.width, o.height)
                + "<a:prstGeom prst=\"rect\"><a:avLst/></a:prstGeom></p:spPr></p:pic>"@
                + "</p:oleObj>"@,
            None => "><p:embed/></p:oleObj>"@,
        })
}

/// The transform of an OLE object's frame (`<p:xfrm>`).
pub open spec fn ole_xfrm_xml(o: OleObject) -> Seq<char> {
    "<p:xfrm"@
        + (if o.rotation != 0 { " rot=\""@ + int_text(o.rotation as int) + "\""@ } else { Seq::empty() })
        + ">"@
        + "<a:off x=\""@ + int_text(o.left.0 as int) + "\" y=\""@ + int_text(o.top.0 as int) + "\"/>"@
        + "<a:ext cx=\""@ + int_text(o.width.0 as int) + "\" cy=\""@ + int_text(o.height.0 as int) + "\"/>"@
        + "</p:xfrm>"@
}

/// The `<p:graphicFrame>` element of an OLE object.
pub open spec fn ole_xml(o: OleObject) -> Seq<char> {
    "<p:graphicFrame>"@
        + "<p:nvGraphicFramePr>"@ + cnvpr_head(o.shape_id, o.name@) + "/>"@
        + "<p:cNvGraphicFramePr><a:graphicFrameLocks noGrp=\"1\" noChangeAspect=\"1\"/></p:cNvGraphicFramePr>"@
        + "<p:nvPr/>"@ + "</p:nvGraphicFramePr>"@
        + ole_xfrm_xml(o)
        + "<a:graphic>"@ + "<a:graphicData uri=\""@ + ole_uri() + "\">"@
        + ole_obj_xml(o)
        + "</a:graphicData>"@ + "</a:graphic>"@ + "</p:graphicFrame>"@
}

impl OleObject {
    /// An OLE object with id 0, an empty name, no rotation and no relationships.
    pub fn new(prog_id: &str, data: Vec<u8>, left: Emu, top: Emu, width: Emu, height: Emu) -> (r: OleObject)
        ensures
            r.shape_id == ShapeId(0) && r.name@.len() == 0 && r.prog_id@ == prog_id@ && r.data@ == data@,
            r.left == left && r.top == top && r.width == width && r.height == height,
            r.rotation == 0 && r.r_id is None && r.icon_r_id is None,
    {
        OleObject {
            shape_id: ShapeId(0),
            name: String::new(),
            left,
            top,
            width,
            height,
            rotation: 0,
            prog_id: prog_id.to_owned(),
            data,
            r_id: None,
            icon_r_id: None,
        }
    }

    #[verifier::rlimit(30)]
    fn write_xfrm(&self, out: &mut String)
        ensures
            final(out)@ == old(out)@ + ole_xfrm_xml(*self),
    {
        string_push_str(out, "<p:xfrm");
        if self.rotation != 0 {
            string_push_str(out, " rot=\"");
            push_i64(out, self.rotation);
            string_push_str(out, "\"");
        }
        string_push_str(out, ">");
        string_push_str(out, "<a:off x=\"");
        push_i64(out, self.left.0);
        string_push_str(out, "\" y=\"");
        push_i64(out, self.top.0);
        string_push_str(out, "\"/>");
        string_push_str(out, "<a:ext cx=\"");
        push_i64(out, self.width.0);
        string_push_str(out, "\" cy=\"");
        push_i64(out, self.height.0);
        string_push_str(out, "\"/>");
        string_push_str(out, "</p:xfrm>");
        assert(out@ =~= old(out)@ + ole_xfrm_xml(*self));
    }

    #[verifier::rlimit(30)]
    fn write_icon(&self, out: &mut String, ic: &RelationshipId)
        ensures
            final(out)@ == old(out)@ + " imgW=\""@ + int_text(self.width.0 as int) + "\" imgH=\""@ + int_text(self.height.0 as int) + "\""@ + ">"@
                + "<p:embed/><p:pic><p:nvPicPr><p:cNvPr id=\"0\" name=\"\"/><p:cNvPicPr/><p:nvPr/></p:nvPicPr><p:blipFill><a:blip r:embed=\""@
                + xml_escape_spec(ic@)
                + "\"/><a:stretch><a:fillRect/></a:stretch></p:blipFill><p:spPr><a:xfrm>"@
                + xfrm_body(self.left, self.top, self.width, self.height)
                + "<a:prstGeom prst=\"rect\"><a:avLst/></a:prstGeom></p:spPr></p:pic>"@
                + "</p:oleObj>"@,
    {
        string_push_str(out, " imgW=\"");
        push_i64(out, self.width.0);
        string_push_str(out, "\" imgH=\"");
        push_i64(out, self.height.0);
        string_push_str(out, "\"");
        string_push_str(out, ">");
        string_push_str(out, "<p:embed/><p:pic><p:nvPicPr><p:cNvPr id=\"0\" name=\"\"/><p:cNvPicPr/><p:nvPr/></p:nvPicPr><p:blipFill><a:blip r:embed=\"");
        push_escaped(out, ic.as_str());
        string_push_str(out, "\"/><a:stretch><a:fillRect/></a:stretch></p:blipFill><p:spPr><a:xfrm>");
        write_xfrm_body(out, self.left, self.top, self.width, self.height);
        string_push_str(out, "<a:prstGeom prst=\"rect\"><a:avLst/></a:prstGeom></p:spPr></p:pic>");
        string_push_str(out, "</p:oleObj>");
        assert(out@ =~= old(out)@ + " imgW=\""@ + int_text(self.width.0 as int) + "\" imgH=\""@ + int_text(self.height.0 as int) + "\""@ + ">"@
                + "<p:embed/><p:pic><p:nvPicPr><p:cNvPr id=\"0\" name=\"\"/><p:cNvPicPr/><p:nvPr/></p:nvPicPr><p:blipFill><a:blip r:embed=\""@
                + xml_escape_spec(ic@)
                + "\"/><a:stretch><a:fillRect/></a:stretch></p:blipFill><p:spPr><a:xfrm>"@
                + xfrm_body(self.left, self.top, self.width, self.height)
                + "<a:prstGeom prst=\"rect\"><a:avLst/></a:prstGeom></p:spPr></p:pic>"@
                + "</p:oleObj>"@);
    }

    #[verifier::rlimit(30)]
    fn write_ole_obj(&self, out: &mut String)
        ensures
            final(out)@ == old(out)@ + ole_obj_xml(*self),
    {
        string_push_str(out, "<p:oleObj progId=\"");
        string_push_str(out, self.prog_id.as_str());
        string_push_str(out, "\"");
        let ghost a0 = out@;
        match &self.r_id {
            Some(r) => {
                string_push_str(out, " r:id=\"");
                push_escaped(out, r.as_str());
                string_push_str(out, "\"");
            },
            None => {},
        }
        assert(out@ =~= a0 + (match self.r_id { Some(r) => " r:id=\""@ + xml_escape_spec(r@) + "\""@, None => Seq::empty() }));
        let ghost b0 = out@;
        match &self.icon_r_id {
            Some(ic) => self.write_icon(out, ic),
            None => string_push_str(out, "><p:embed/></p:oleObj>"),
        }
        assert(out@ =~= old(out)@ + ole_obj_xml(*self));
    }

    /// Appends the `<p:graphicFrame>` element of this OLE object (see `ole_xml`).
    #[verifier::rlimit(30)]
    pub fn write_xml(&self, out: &mut String)
        ensures
            final(out)@ == old(out)@ + ole_xml(*self),
    {
        string_push_str(out, "<p:graphicFrame>");
        string_push_str(out, "<p:nvGraphicFramePr>");
        write_cnvpr_head(out, self.shape_id, self.name.as_str());
        string_push_str(out, "/>");
        string_push_str(out, "<p:cNvGraphicFramePr><a:graphicFrameLocks noGrp=\"1\" noChangeAspect=\"1\"/></p:cNvGraphicFramePr>");
        string_push_str(out, "<p:nvPr/>");
        string_push_str(out, "</p:nvGraphicFramePr>");
        self.write_xfrm(out);
        string_push_str(out, "<a:graphic>");
        string_push_str(out, "<a:graphicData uri=\"");
        string_push_str(out, "http://schemas.openxmlformats.org/presentationml/2006/ole");
        string_push_str(out, "\">");
        self.write_ole_obj(out);
        string_push_str(out, "</a:graphicData>");
        string_push_str(out, "</a:graphic>");
        string_push_str(out, "</p:graphicFrame>");
        assert(out@ =~= old(out)@ + ole_xml(*self));
    }

    /// The `<p:graphicFrame>` element of this OLE object as a string.
    pub fn to_xml_string(&self) -> (r: String)
        ensures
            r@ == ole_xml(*self),
    {
        let mut s = String::new();
        self.write_xml(&mut s);
        assert(s@ =~= ole_xml(*self));
        s
    }
}

/// The largest shape id among shapes, looking into groups (a group counts with its own id
/// and those of its shapes); 0 when there are none.
pub open spec fn shapes_max(v: Seq<Shape>) -> u32
    decreases v,
{
    if v.len() == 0 {
        0
    } else {
        let m = shapes_max(v.subrange(0, v.len() - 1));
        let last = v[v.len() - 1];
        let id = match last {
            Shape::GroupShape(g) => {
                let inner = shapes_max(g.shapes@);
                if inner > g.shape_id.0 { inner } else { g.shape_id.0 }
            },
            _ => common_of(last).0.0,
        };
        if id > m { id } else { m }
    }
}

impl GroupShape {
    /// The largest shape id inside the group, looking into nested groups; 0 when empty.
    pub fn max_shape_id(&self) -> (r: ShapeId)
        ensures
            r.0 == shapes_max(self.shapes@),
        decreases self,
    {
        let mut best: u32 = 0;
        let mut i: usize = 0;
        while i < self.shapes.len()
            invariant
                i <= self.shapes@.len(),
                best == shapes_max(self.shapes@.subrange(0, i as int)),
            decreases self.shapes.len() - i,
        {
            let ghost pre = self.shapes@.subrange(0, i as int + 1);
            assert(pre.subrange(0, pre.len() - 1) =~= self.shapes@.subrange(0, i as int));
            assert(pre[pre.len() - 1] == self.shapes@[i as int]);
            let id: u32 = match &self.shapes[i] {
                Shape::GroupShape(g) => {
                    proof {
                        assert(decreases_to!(self => self.shapes));
                        assert(decreases_to!(self.shapes => self.shapes@));
                        assert(decreases_to!(self.shapes@ => self.shapes@[i as int]));
                    }
                    let inner = g.max_shape_id();
                    if inner.0 > g.shape_id.0 { inner.0 } else { g.shape_id.0 }
                },
                other => other.shape_id().0,
            };
            if id > best {
                best = id;
            }
            i = i + 1;
        }
        assert(self.shapes@.subrange(0, i as int) =~= self.shapes@);
        ShapeId(best)
    }
}

/// The id after the largest in a group: one more than the larger of the group's own id and
/// the largest id inside it.
pub open spec fn group_next_id(g: GroupShape) -> int {
    (if shapes_max(g.shapes@) > g.shape_id.0 { shapes_max(g.shapes@) } else { g.shape_id.0 }) + 1
}

/// The name of a new shape in a group: the base name and one more than the number of shapes
/// of the group named with it.
pub open spec fn group_new_name(g: GroupShape, base: Seq<char>) -> Seq<char> {
    base + " "@ + nat_digits(crate::shapes::shapetree::shape_prefix_count(g.shapes@, base) + 1)
}

/// Whether a group is unchanged but for its shapes.
pub open spec fn same_group_fields(a: GroupShape, b: GroupShape) -> bool {
    a.shape_id == b.shape_id && a.name == b.name && a.left == b.left && a.top == b.top
        && a.width == b.width && a.height == b.height && a.rotation == b.rotation
}

/// Whether a shape is a new plain shape: the given id, name, position, size, geometry and
/// text-box flag, and nothing else set.
pub open spec fn new_autoshape_is(s: Shape, id: int, name: Seq<char>, l: Emu, t: Emu, w: Emu, h: Emu, prst: Seq<char>, textbox: bool) -> bool {
    s matches Shape::AutoShape(a) && a.shape_id.0 == id && a.name@ == name && a.left == l && a.top == t && a.width == w
        && a.height == h && a.rotation == 0 && opt_text(a.prst_geom) == Some(prst) && a.is_textbox == textbox
        && a.placeholder is None && a.tx_body_xml is None && a.text_frame is None && a.fill is None && a.line is None && a.click_action is None && a.hover_action is None
        && a.adjustments@.len() == 0 && a.custom_geometry is None
}

proof fn lemma_prefix_count_le(v: Seq<Shape>, prefix: Seq<char>)
    ensures
        crate::shapes::shapetree::shape_prefix_count(v, prefix) <= v.len(),
    decreases v.len(),
{
    if v.len() > 0 {
        lemma_prefix_count_le(v.drop_last(), prefix);
    }
}

impl GroupShape {
    /// The number of shapes in the group.
    pub fn len(&self) -> (r: usize)
        ensures
            r == self.shapes@.len(),
    {
        self.shapes.len()
    }

    /// Whether the group has no shapes.
    pub fn is_empty(&self) -> (r: bool)
        ensures
            r == (self.shapes@.len() == 0),
    {
        self.shapes.len() == 0
    }

    /// Adds a shape at the end of the group.
    pub fn add_shape(&mut self, shape: Shape)
        ensures
            final(self).shapes@ == old(self).shapes@.push(shape),
            same_group_fields(*final(self), *old(self)),
    {
        self.shapes.push(shape);
    }

    /// The id for a new shape in the group (see `group_next_id`).
    pub fn next_shape_id(&self) -> (r: ShapeId)
        requires
            group_next_id(*self) <= u32::MAX,
        ensures
            r.0 == group_next_id(*self),
    {
        let m = self.max_shape_id();
        let top = if m.0 > self.shape_id.0 { m.0 } else { self.shape_id.0 };
        ShapeId(top + 1)
    }

    /// How many shapes of the group have a name that starts with `prefix`.
    pub fn count_shapes_with_prefix(&self, prefix: &str) -> (r: u32)
        requires
            self.shapes@.len() < u32::MAX,
        ensures
            r == crate::shapes::shapetree::shape_prefix_count(self.shapes@, prefix@),
    {
        let mut count: u32 = 0;
        let mut i: usize = 0;
        while i < self.shapes.len()
            invariant
                i <= self.shapes@.len() < u32::MAX,
                count == crate::shapes::shapetree::shape_prefix_count(self.shapes@.take(i as int), prefix@),
                count <= i,
            decreases self.shapes.len() - i,
        {
            assert(self.shapes@.take(i as int + 1).drop_last() =~= self.shapes@.take(i as int));
            if crate::shapes::shapetree::starts_with_exec(self.shapes[i].name(), prefix) {
                count = count + 1;
            }
            i = i + 1;
        }
        assert(self.shapes@.take(i as int) =~= self.shapes@);
        count
    }

    /// The id and name for a new shape with base name `base`.
    fn next_id_and_name(&self, base: &str) -> (r: (ShapeId, String))
        requires
            group_next_id(*self) <= u32::MAX,
            self.shapes@.len() < u32::MAX,
        ensures
            r.0.0 == group_next_id(*self),
            r.1@ == group_new_name(*self, base@),
    {
        let id = self.next_shape_id();
        let count = self.count_shapes_with_prefix(base);
        proof { lemma_prefix_count_le(self.shapes@, base@); }
        let mut name = String::new();
        string_push_str(&mut name, base);
        string_push_str(&mut name, " ");
        push_u64(&mut name, (count as u64) + 1);
        assert(name@ =~= group_new_name(*self, base@));
        (id, name)
    }

    /// Adds a shape and hands out the place it was put.
    fn push_shape(&mut self, shape: Shape) -> (r: &mut Shape)
        ensures
            *r == shape,
            final(self).shapes@ == old(self).shapes@.push(*final(r)),
            same_group_fields(*final(self), *old(self)),
    {
        self.shapes.push(shape);
        let idx = self.shapes.len() - 1;
        &mut self.shapes[idx]
    }

    /// Adds a text box named `TextBox n`; hands out the new shape.
    pub fn add_textbox(&mut self, left: Emu, top: Emu, width: Emu, height: Emu) -> (r: &mut Shape)
        requires
            group_next_id(*old(self)) <= u32::MAX,
            old(self).shapes@.len() < u32::MAX,
        ensures
            new_autoshape_is(*r, group_next_id(*old(self)), group_new_name(*old(self), "TextBox"@), left, top, width, height, "rect"@, true),
            final(self).shapes@ == old(self).shapes@.push(*final(r)),
            same_group_fields(*final(self), *old(self)),
    {
        let (id, name) = self.next_id_and_name("TextBox");
        let a = AutoShape::textbox(id, name.as_str(), left, top, width, height);
        self.push_shape(Shape::AutoShape(a))
    }

    /// Adds a shape with the preset geometry `prst`, named after the geometry; hands out
    /// the new shape.
    pub fn add_autoshape(&mut self, prst: &str, left: Emu, top: Emu, width: Emu, height: Emu) -> (r: &mut Shape)
        requires
            group_next_id(*old(self)) <= u32::MAX,
            old(self).shapes@.len() < u32::MAX,
        ensures
            new_autoshape_is(*r, group_next_id(*old(self)),
                group_new_name(*old(self), crate::shapes::names::shape_name_spec(prst@)), left, top, width, height, prst@, false),
            final(self).shapes@ == old(self).shapes@.push(*final(r)),
            same_group_fields(*final(self), *old(self)),
    {
        let base = crate::shapes::names::shape_name_for_prst(prst);
        let (id, name) = self.next_id_and_name(base);
        let a = AutoShape::with_geometry(id, name.as_str(), left, top, width, height, prst);
        self.push_shape(Shape::AutoShape(a))
    }

    /// Adds a picture of the image with relationship id `image_r_id`, named `Picture n`;
    /// hands out the new shape.
    pub fn add_picture(&mut self, image_r_id: &str, left: Emu, top: Emu, width: Emu, height: Emu) -> (r: &mut Shape)
        requires
            group_next_id(*old(self)) <= u32::MAX,
            old(self).shapes@.len() < u32::MAX,
        ensures
            *r matches Shape::Picture(p) && p.shape_id.0 == group_next_id(*old(self))
                && p.name@ == group_new_name(*old(self), "Picture"@) && p.left == left && p.top == top
                && p.width == width && p.height == height && p.rotation == 0 && opt_text(p.image_r_id) == Some(image_r_id@)
                && p.description is None && p.placeholder is None && p.crop_left == 0 && p.crop_right == 0
                && p.crop_top == 0 && p.crop_bottom == 0 && p.click_action is None && p.hover_action is None
                && p.auto_shape_type is None,
            final(self).shapes@ == old(self).shapes@.push(*final(r)),
            same_group_fields(*final(self), *old(self)),
    {
        let (id, name) = self.next_id_and_name("Picture");
        let p = Picture::new(id, name.as_str(), left, top, width, height, image_r_id);
        self.push_shape(Shape::Picture(p))
    }

    /// Adds a connector of preset geometry `prst` from (`begin_x`, `begin_y`) to
    /// (`end_x`, `end_y`), named `Connector n`: its box spans the two points, flipped
    /// horizontally when it runs right to left and vertically when it runs bottom to top.
    pub fn add_connector(&mut self, prst: &str, begin_x: Emu, begin_y: Emu, end_x: Emu, end_y: Emu) -> (r: &mut Shape)
        requires
            group_next_id(*old(self)) <= u32::MAX,
            old(self).shapes@.len() < u32::MAX,
            i64::MIN <= end_x.0 - begin_x.0 <= i64::MAX,
            i64::MIN <= begin_x.0 - end_x.0 <= i64::MAX,
            i64::MIN <= end_y.0 - begin_y.0 <= i64::MAX,
            i64::MIN <= begin_y.0 - end_y.0 <= i64::MAX,
        ensures
            *r matches Shape::Connector(c) && c.shape_id.0 == group_next_id(*old(self))
                && c.name@ == group_new_name(*old(self), "Connector"@)
                && c.left == (if begin_x.0 <= end_x.0 { begin_x } else { end_x })
                && c.top == (if begin_y.0 <= end_y.0 { begin_y } else { end_y })
                && c.width.0 == (if begin_x.0 <= end_x.0 { end_x.0 - begin_x.0 } else { begin_x.0 - end_x.0 })
                && c.height.0 == (if begin_y.0 <= end_y.0 { end_y.0 - begin_y.0 } else { begin_y.0 - end_y.0 })
                && c.flip_h == (begin_x.0 > end_x.0) && c.flip_v == (begin_y.0 > end_y.0)
                && c.rotation == 0 && opt_text(c.prst_geom) == Some(prst@)
                && c.begin_shape_id is None && c.begin_cxn_idx is None && c.end_shape_id is None && c.end_cxn_idx is None,
            final(self).shapes@ == old(self).shapes@.push(*final(r)),
            same_group_fields(*final(self), *old(self)),
    {
        let (id, name) = self.next_id_and_name("Connector");
        let (left, width, flip_h) = if begin_x.0 <= end_x.0 {
            (begin_x, Emu(end_x.0 - begin_x.0), false)
        } else {
            (end_x, Emu(begin_x.0 - end_x.0), true)
        };
        let (top, height, flip_v) = if begin_y.0 <= end_y.0 {
            (begin_y, Emu(end_y.0 - begin_y.0), false)
        } else {
            (end_y, Emu(begin_y.0 - end_y.0), true)
        };
        let mut c = Connector::new(id, name.as_str(), left, top, width, height);
        c.flip_h = flip_h;
        c.flip_v = flip_v;
        c.prst_geom = Some(prst.to_owned());
        self.push_shape(Shape::Connector(c))
    }

    /// Adds a table frame of `rows` rows of height `row_height`, named `Table n`; hands out
    /// the new shape.
    pub fn add_table(&mut self, rows: usize, cols: usize, left: Emu, top: Emu, width: Emu, row_height: Emu) -> (r: &mut Shape)
        requires
            group_next_id(*old(self)) <= u32::MAX,
            old(self).shapes@.len() < u32::MAX,
            i64::MIN <= row_height.0 * (if rows <= i64::MAX { rows as int } else { i64::MAX as int }) <= i64::MAX,
        ensures
            *r matches Shape::GraphicFrame(g) && g.shape_id.0 == group_next_id(*old(self))
                && g.name@ == group_new_name(*old(self), "Table"@) && g.left == left && g.top == top && g.width == width
                && g.height.0 == row_height.0 * (if rows <= i64::MAX { rows as int } else { i64::MAX as int })
                && g.rotation == 0 && g.has_table && !g.has_chart
                && opt_text(g.graphic_data_uri) == Some(crate::shapes::parse::TABLE_URI@)
                && g.placeholder is None && g.smartart_r_id is None,
            final(self).shapes@ == old(self).shapes@.push(*final(r)),
            same_group_fields(*final(self), *old(self)),
    {
        let (id, name) = self.next_id_and_name("Table");
        let n: i64 = if (rows as u64) <= 0x7FFF_FFFF_FFFF_FFFFu64 { rows as i64 } else { 0x7FFF_FFFF_FFFF_FFFF };
        let height = Emu(row_height.0 * n);
        let g = GraphicFrame {
            shape_id: id,
            name,
            left,
            top,
            width,
            height,
            rotation: 0,
            has_table: true,
            has_chart: false,
            graphic_data_uri: Some(crate::shapes::parse::TABLE_URI.to_owned()),
            placeholder: None,
            smartart_r_id: None,
        };
        self.push_shape(Shape::GraphicFrame(g))
    }

    /// Adds an empty group at the origin with no size, named `Group n`; hands out the new
    /// shape.
    pub fn add_group_shape(&mut self) -> (r: &mut Shape)
        requires
            group_next_id(*old(self)) <= u32::MAX,
            old(self).shapes@.len() < u32::MAX,
        ensures
            *r matches Shape::GroupShape(g) && g.shape_id.0 == group_next_id(*old(self))
                && g.name@ == group_new_name(*old(self), "Group"@) && g.left == Emu(0) && g.top == Emu(0)
                && g.width == Emu(0) && g.height == Emu(0) && g.rotation == 0 && g.shapes@.len() == 0,
            final(self).shapes@ == old(self).shapes@.push(*final(r)),
            same_group_fields(*final(self), *old(self)),
    {
        let (id, name) = self.next_id_and_name("Group");
        let g = GroupShape {
            shape_id: id,
            name,
            left: Emu(0),
            top: Emu(0),
            width: Emu(0),
            height: Emu(0),
            rotation: 0,
            shapes: Vec::new(),
        };
        self.push_shape(Shape::GroupShape(g))
    }
}

/// Every id inside a group is at most the largest (see `shapes_max`).
pub proof fn lemma_shapes_max_bound(v: Seq<Shape>)
    ensures
        forall|k: int| 0 <= k < v.len() ==> #[trigger] common_of(v[k]).0.0 <= shapes_max(v),
    decreases v,
{
    if v.len() > 0 {
        let pre = v.subrange(0, v.len() - 1);
        lemma_shapes_max_bound(pre);
        assert forall|k: int| 0 <= k < v.len() implies #[trigger] common_of(v[k]).0.0 <= shapes_max(v) by {
            if k < v.len() - 1 {
                assert(v[k] == pre[k]);
            }
        }
    }
}

/// A shape added to a group gets an id larger than the group's own and than that of every
/// shape directly in it.
pub proof fn lemma_group_next_id_fresh(g: GroupShape)
    ensures
        g.shape_id.0 < group_next_id(g),
        forall|k: int| 0 <= k < g.shapes@.len() ==> #[trigger] common_of(g.shapes@[k]).0.0 < group_next_id(g),
{
    lemma_shapes_max_bound(g.shapes@);
}
} // verus!
