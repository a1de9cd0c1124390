//! The XML of new shapes for a slide's shape tree, and inserting such a shape into a slide.
use vstd::prelude::*;
use crate::edit::inserted;
use crate::error::PptxError;
use crate::scan::{find_from, lemma_find_from};
use crate::text::{int_text, nat_digits, push_escaped, push_i64, push_u64, string_push_str, xml_escape_spec};
use crate::units::{Emu, ShapeId};

verus! {

/// The namespace declarations that every new shape element carries.
pub open spec fn ns_decls() -> Seq<char> {
    " xmlns:a=\"http://schemas.openxmlformats.org/drawingml/2006/main\" xmlns:r=\"http://schemas.openxmlformats.org/officeDocument/2006/relationships\" xmlns:p=\"http://schemas.openxmlformats.org/presentationml/2006/main\""@
}

/// `<p:cNvPr id="…" name="…"` (not closed): the shape's id and its escaped name.
pub open spec fn cnv_pr(id: ShapeId, name: Seq<char>) -> Seq<char> {
    "<p:cNvPr id=\""@ + nat_digits(id.0 as nat) + "\" name=\""@ + xml_escape_spec(name) + "\""@
}

/// `<a:off …/><a:ext …/>`: position and size.
pub open spec fn off_ext(left: Emu, top: Emu, width: Emu, height: Emu) -> Seq<char> {
    "<a:off x=\""@ + int_text(left.0 as int) + "\" y=\""@ + int_text(top.0 as int) + "\"/><a:ext cx=\""@
        + int_text(width.0 as int) + "\" cy=\""@ + int_text(height.0 as int) + "\"/>"@
}

/// The XML of a new text box.
pub open spec fn textbox_xml(id: ShapeId, name: Seq<char>, left: Emu, top: Emu, width: Emu, height: Emu) -> Seq<char> {
    "<p:sp"@ + ns_decls() + "><p:nvSpPr>"@ + cnv_pr(id, name) + "/><p:cNvSpPr txBox=\"1\"/><p:nvPr/></p:nvSpPr><p:spPr><a:xfrm>"@
        + off_ext(left, top, width, height)
        + "</a:xfrm><a:prstGeom prst=\"rect\"><a:avLst/></a:prstGeom><a:noFill/></p:spPr><p:txBody><a:bodyPr wrap=\"square\" rtlCol=\"0\"/><a:lstStyle/><a:p><a:endParaRPr lang=\"en-US\"/></a:p></p:txBody></p:sp>"@
}

/// The XML of a new auto shape with preset geometry `prst`.
pub open spec fn autoshape_xml(id: ShapeId, name: Seq<char>, left: Emu, top: Emu, width: Emu, height: Emu, prst: Seq<char>) -> Seq<char> {
    "<p:sp"@ + ns_decls() + "><p:nvSpPr>"@ + cnv_pr(id, name) + "/><p:cNvSpPr/><p:nvPr/></p:nvSpPr><p:spPr><a:xfrm>"@
        + off_ext(left, top, width, height) + "</a:xfrm><a:prstGeom prst=\""@ + prst
        + "\"><a:avLst/></a:prstGeom></p:spPr><p:txBody><a:bodyPr rtlCol=\"0\" anchor=\"ctr\"/><a:lstStyle/><a:p><a:pPr algn=\"ctr\"/><a:endParaRPr lang=\"en-US\"/></a:p></p:txBody></p:sp>"@
}

/// The XML of a new picture showing the image of relationship `r_id`.
pub open spec fn picture_xml(
    id: ShapeId,
    name: Seq<char>,
    desc: Seq<char>,
    r_id: Seq<char>,
    left: Emu,
    top: Emu,
    width: Emu,
    height: Emu,
) -> Seq<char> {
    "<p:pic"@ + ns_decls() + "><p:nvPicPr>"@ + cnv_pr(id, name) + " descr=\""@ + xml_escape_spec(desc)
        + "\"/><p:cNvPicPr><a:picLocks noChangeAspect=\"1\"/></p:cNvPicPr><p:nvPr/></p:nvPicPr><p:blipFill><a:blip r:embed=\""@
        + r_id + "\"/><a:stretch><a:fillRect/></a:stretch></p:blipFill><p:spPr><a:xfrm>"@ + off_ext(left, top, width, height)
        + "</a:xfrm><a:prstGeom prst=\"rect\"><a:avLst/></a:prstGeom></p:spPr></p:pic>"@
}

/// The flip attributes of a connector's `<a:xfrm>`.
pub open spec fn flip_attrs(flip_h: bool, flip_v: bool) -> Seq<char> {
    (if flip_h { " flipH=\"1\""@ } else { Seq::empty() }) + (if flip_v { " flipV=\"1\""@ } else { Seq::empty() })
}

/// The XML of a new connector with preset geometry `prst` and the given flips.
pub open spec fn connector_flip_xml(
    id: ShapeId,
    name: Seq<char>,
    left: Emu,
    top: Emu,
    width: Emu,
    height: Emu,
    prst: Seq<char>,
    flip_h: bool,
    flip_v: bool,
) -> Seq<char> {
    "<p:cxnSp"@ + ns_decls() + "><p:nvCxnSpPr>"@ + cnv_pr(id, name) + "/><p:cNvCxnSpPr/><p:nvPr/></p:nvCxnSpPr><p:spPr><a:xfrm"@
        + flip_attrs(flip_h, flip_v) + ">"@ + off_ext(left, top, width, height) + "</a:xfrm><a:prstGeom prst=\""@ + prst
        + "\"><a:avLst/></a:prstGeom></p:spPr></p:cxnSp>"@
}

/// The XML of a new graphic frame holding the chart of relationship `r_id`.
pub open spec fn chart_frame_xml(id: ShapeId, name: Seq<char>, r_id: Seq<char>, left: Emu, top: Emu, width: Emu, height: Emu) -> Seq<char> {
    "<p:graphicFrame"@ + ns_decls() + "><p:nvGraphicFramePr>"@ + cnv_pr(id, name)
        + "/><p:cNvGraphicFramePr><a:graphicFrameLocks noGrp=\"1\"/></p:cNvGraphicFramePr><p:nvPr/></p:nvGraphicFramePr><p:xfrm>"@
        + off_ext(left, top, width, height)
        + "</p:xfrm><a:graphic><a:graphicData uri=\"http://schemas.openxmlformats.org/drawingml/2006/chart\"><c:chart xmlns:c=\"http://schemas.openxmlformats.org/drawingml/2006/chart\" r:id=\""@
        + r_id + "\"/></a:graphicData></a:graphic></p:graphicFrame>"@
}

/// `s` repeated `n` times.
pub open spec fn repeat(s: Seq<char>, n: nat) -> Seq<char>
    decreases n,
{
    if n == 0 {
        Seq::empty()
    } else {
        repeat(s, (n - 1) as nat) + s
    }
}

/// Division of a length by a positive count, rounding toward zero.
pub open spec fn div_toward_zero(a: int, b: int) -> int {
    if a >= 0 { a / b } else { -((-a) / b) }
}

/// One empty table cell.
pub open spec fn table_cell() -> Seq<char> {
    "<a:tc><a:txBody><a:bodyPr/><a:lstStyle/><a:p><a:endParaRPr lang=\"en-US\"/></a:p></a:txBody><a:tcPr/></a:tc>"@
}

/// The XML of a new table of `rows` rows and `cols` columns of equal size (the size
/// divided by the count, rounded toward zero; the whole size for a count of zero).
pub open spec fn table_xml(id: ShapeId, name: Seq<char>, rows: u32, cols: u32, left: Emu, top: Emu, width: Emu, height: Emu) -> Seq<char> {
    let cw = if cols > 0 { div_toward_zero(width.0 as int, cols as int) } else { width.0 as int };
    let rh = if rows > 0 { div_toward_zero(height.0 as int, rows as int) } else { height.0 as int };
    let grid = repeat("<a:gridCol w=\""@ + int_text(cw) + "\"/>"@, cols as nat);
    let row = "<a:tr h=\""@ + int_text(rh) + "\">"@ + repeat(table_cell(), cols as nat) + "</a:tr>"@;
    "<p:graphicFrame"@ + ns_decls() + "><p:nvGraphicFramePr>"@ + cnv_pr(id, name)
        + "/><p:cNvGraphicFramePr><a:graphicFrameLocks noGrp=\"1\"/></p:cNvGraphicFramePr><p:nvPr/></p:nvGraphicFramePr><p:xfrm>"@
        + off_ext(left, top, width, height)
        + "</p:xfrm><a:graphic><a:graphicData uri=\"http://schemas.openxmlformats.org/drawingml/2006/table\"><a:tbl><a:tblPr firstRow=\"1\" bandRow=\"1\"><a:tableStyleId>{5C22544A-7EE6-4342-B048-85BDC9FD1C3A}</a:tableStyleId></a:tblPr><a:tblGrid>"@
        + grid + "</a:tblGrid>"@ + repeat(row, rows as nat) + "</a:tbl></a:graphicData></a:graphic></p:graphicFrame>"@
}

/// The XML of a new movie: the video of relationship `video_r_id`, its poster frame the
/// image of `poster_r_id`.
pub open spec fn movie_xml(
    id: ShapeId,
    name: Seq<char>,
    video_r_id: Seq<char>,
    poster_r_id: Seq<char>,
    left: Emu,
    top: Emu,
    width: Emu,
    height: Emu,
) -> Seq<char> {
    "<p:pic"@ + ns_decls() + "><p:nvPicPr>"@ + cnv_pr(id, name)
        + "/><p:cNvPicPr><a:picLocks noChangeAspect=\"1\"/></p:cNvPicPr><p:nvPr><a:videoFile r:link=\""@ + video_r_id
        + "\"/></p:nvPr></p:nvPicPr><p:blipFill><a:blip r:embed=\""@ + poster_r_id
        + "\"/><a:stretch><a:fillRect/></a:stretch></p:blipFill><p:spPr><a:xfrm>"@ + off_ext(left, top, width, height)
        + "</a:xfrm><a:prstGeom prst=\"rect\"><a:avLst/></a:prstGeom></p:spPr></p:pic>"@
}

/// The XML of a new empty group, its child frame the same as its frame.
pub open spec fn group_xml(id: ShapeId, name: Seq<char>, left: Emu, top: Emu, width: Emu, height: Emu) -> Seq<char> {
    "<p:grpSp"@ + ns_decls() + "><p:nvGrpSpPr>"@ + cnv_pr(id, name) + "/><p:cNvGrpSpPr/><p:nvPr/></p:nvGrpSpPr><p:grpSpPr><a:xfrm>"@
        + off_ext(left, top, width, height) + "<a:chOff x=\""@ + int_text(left.0 as int) + "\" y=\""@ + int_text(top.0 as int)
        + "\"/><a:chExt cx=\""@ + int_text(width.0 as int) + "\" cy=\""@ + int_text(height.0 as int)
        + "\"/></a:xfrm></p:grpSpPr></p:grpSp>"@
}

fn push_ns(out: &mut String)
    ensures
        final(out)@ == old(out)@ + ns_decls(),
{
    string_push_str(out, " xmlns:a=\"http://schemas.openxmlformats.org/drawingml/2006/main\" xmlns:r=\"http://schemas.openxmlformats.org/officeDocument/2006/relationships\" xmlns:p=\"http://schemas.openxmlformats.org/presentationml/2006/main\"");
}

fn push_cnv_pr(out: &mut String, id: ShapeId, name: &str)
    ensures
        final(out)@ == old(out)@ + cnv_pr(id, name@),
{
    let ghost start = out@;
    string_push_str(out, "<p:cNvPr id=\"");
    push_u64(out, id.0 as u64);
    string_push_str(out, "\" name=\"");
    push_escaped(out, name);
    string_push_str(out, "\"");
    assert(out@ =~= start + cnv_pr(id, name@));
}

fn push_off_ext(out: &mut String, left: Emu, top: Emu, width: Emu, height: Emu)
    ensures
        final(out)@ == old(out)@ + off_ext(left, top, width, height),
{
    let ghost start = out@;
    string_push_str(out, "<a:off x=\"");
    push_i64(out, left.0);
    string_push_str(out, "\" y=\"");
    push_i64(out, top.0);
    string_push_str(out, "\"/><a:ext cx=\"");
    push_i64(out, width.0);
    string_push_str(out, "\" cy=\"");
    push_i64(out, height.0);
    string_push_str(out, "\"/>");
    assert(out@ =~= start + off_ext(left, top, width, height));
}

/// The XML of a new text box (see `textbox_xml`).
pub fn new_textbox_xml(shape_id: ShapeId, name: &str, left: Emu, top: Emu, width: Emu, height: Emu) -> (r: String)
    ensures
        r@ == textbox_xml(shape_id, name@, left, top, width, height),
{
    let mut s = String::new();
    string_push_str(&mut s, "<p:sp");
    push_ns(&mut s);
    string_push_str(&mut s, "><p:nvSpPr>");
    push_cnv_pr(&mut s, shape_id, name);
    string_push_str(&mut s, "/><p:cNvSpPr txBox=\"1\"/><p:nvPr/></p:nvSpPr><p:spPr><a:xfrm>");
    push_off_ext(&mut s, left, top, width, height);
    string_push_str(&mut s, "</a:xfrm><a:prstGeom prst=\"rect\"><a:avLst/></a:prstGeom><a:noFill/></p:spPr><p:txBody><a:bodyPr wrap=\"square\" rtlCol=\"0\"/><a:lstStyle/><a:p><a:endParaRPr lang=\"en-US\"/></a:p></p:txBody></p:sp>");
    assert(s@ =~= textbox_xml(shape_id, name@, left, top, width, height));
    s
}

/// The XML of a new auto shape (see `autoshape_xml`).
pub fn new_autoshape_xml(shape_id: ShapeId, name: &str, left: Emu, top: Emu, width: Emu, height: Emu, prst: &str) -> (r: String)
    ensures
        r@ == autoshape_xml(shape_id, name@, left, top, width, height, prst@),
{
    let mut s = String::new();
    string_push_str(&mut s, "<p:sp");
    push_ns(&mut s);
    string_push_str(&mut s, "><p:nvSpPr>");
    push_cnv_pr(&mut s, shape_id, name);
    string_push_str(&mut s, "/><p:cNvSpPr/><p:nvPr/></p:nvSpPr><p:spPr><a:xfrm>");
    push_off_ext(&mut s, left, top, width, height);
    string_push_str(&mut s, "</a:xfrm><a:prstGeom prst=\"");
    string_push_str(&mut s, prst);
    string_push_str(&mut s, "\"><a:avLst/></a:prstGeom></p:spPr><p:txBody><a:bodyPr rtlCol=\"0\" anchor=\"ctr\"/><a:lstStyle/><a:p><a:pPr algn=\"ctr\"/><a:endParaRPr lang=\"en-US\"/></a:p></p:txBody></p:sp>");
    assert(s@ =~= autoshape_xml(shape_id, name@, left, top, width, height, prst@));
    s
}

/// The XML of a new picture (see `picture_xml`).
pub fn new_picture_xml(
    shape_id: ShapeId,
    name: &str,
    desc: &str,
    r_id: &str,
    left: Emu,
    top: Emu,
    width: Emu,
    height: Emu,
) -> (r: String)
    ensures
        r@ == picture_xml(shape_id, name@, desc@, r_id@, left, top, width, height),
{
    let mut s = String::new();
    string_push_str(&mut s, "<p:pic");
    push_ns(&mut s);
    string_push_str(&mut s, "><p:nvPicPr>");
    push_cnv_pr(&mut s, shape_id, name);
    string_push_str(&mut s, " descr=\"");
    push_escaped(&mut s, desc);
    string_push_str(&mut s, "\"/><p:cNvPicPr><a:picLocks noChangeAspect=\"1\"/></p:cNvPicPr><p:nvPr/></p:nvPicPr><p:blipFill><a:blip r:embed=\"");
    string_push_str(&mut s, r_id);
    string_push_str(&mut s, "\"/><a:stretch><a:fillRect/></a:stretch></p:blipFill><p:spPr><a:xfrm>");
    push_off_ext(&mut s, left, top, width, height);
    string_push_str(&mut s, "</a:xfrm><a:prstGeom prst=\"rect\"><a:avLst/></a:prstGeom></p:spPr></p:pic>");
    assert(s@ =~= picture_xml(shape_id, name@, desc@, r_id@, left, top, width, height));
    s
}

/// The XML of a new connector with the given flips (see `connector_flip_xml`).
pub fn new_connector_xml_with_flip(
    shape_id: ShapeId,
    name: &str,
    left: Emu,
    top: Emu,
    width: Emu,
    height: Emu,
    prst: &str,
    flip_h: bool,
    flip_v: bool,
) -> (r: String)
    ensures
        r@ == connector_flip_xml(shape_id, name@, left, top, width, height, prst@, flip_h, flip_v),
{
    let mut s = String::new();
    string_push_str(&mut s, "<p:cxnSp");
    push_ns(&mut s);
    string_push_str(&mut s, "><p:nvCxnSpPr>");
    push_cnv_pr(&mut s, shape_id, name);
    string_push_str(&mut s, "/><p:cNvCxnSpPr/><p:nvPr/></p:nvCxnSpPr><p:spPr><a:xfrm");
    let ghost before_flips = s@;
    if flip_h {
        string_push_str(&mut s, " flipH=\"1\"");
    }
    if flip_v {
        string_push_str(&mut s, " flipV=\"1\"");
    }
    assert(s@ =~= before_flips + flip_attrs(flip_h, flip_v));
    string_push_str(&mut s, ">");
    push_off_ext(&mut s, left, top, width, height);
    string_push_str(&mut s, "</a:xfrm><a:prstGeom prst=\"");
    string_push_str(&mut s, prst);
    string_push_str(&mut s, "\"><a:avLst/></a:prstGeom></p:spPr></p:cxnSp>");
    assert(s@ =~= connector_flip_xml(shape_id, name@, left, top, width, height, prst@, flip_h, flip_v));
    s
}

/// The XML of a new connector without flips.
pub fn new_connector_xml(shape_id: ShapeId, name: &str, left: Emu, top: Emu, width: Emu, height: Emu, prst: &str) -> (r: String)
    ensures
        r@ == connector_flip_xml(shape_id, name@, left, top, width, height, prst@, false, false),
{
    new_connector_xml_with_flip(shape_id, name, left, top, width, height, prst, false, false)
}

/// The XML of a new graphic frame holding a chart (see `chart_frame_xml`).
pub fn new_chart_graphic_frame_xml(
    shape_id: ShapeId,
    name: &str,
    r_id: &str,
    left: Emu,
    top: Emu,
    width: Emu,
    height: Emu,
) -> (r: String)
    ensures
        r@ == chart_frame_xml(shape_id, name@, r_id@, left, top, width, height),
{
    let mut s = String::new();
    string_push_str(&mut s, "<p:graphicFrame");
    push_ns(&mut s);
    string_push_str(&mut s, "><p:nvGraphicFramePr>");
    push_cnv_pr(&mut s, shape_id, name);
    string_push_str(&mut s, "/><p:cNvGraphicFramePr><a:graphicFrameLocks noGrp=\"1\"/></p:cNvGraphicFramePr><p:nvPr/></p:nvGraphicFramePr><p:xfrm>");
    push_off_ext(&mut s, left, top, width, height);
    string_push_str(&mut s, "</p:xfrm><a:graphic><a:graphicData uri=\"http://schemas.openxmlformats.org/drawingml/2006/chart\"><c:chart xmlns:c=\"http://schemas.openxmlformats.org/drawingml/2006/chart\" r:id=\"");
    string_push_str(&mut s, r_id);
    string_push_str(&mut s, "\"/></a:graphicData></a:graphic></p:graphicFrame>");
    assert(s@ =~= chart_frame_xml(shape_id, name@, r_id@, left, top, width, height));
    s
}

/// The XML of a new movie (see `movie_xml`).
pub fn new_movie_xml(
    shape_id: ShapeId,
    name: &str,
    video_r_id: &str,
    poster_r_id: &str,
    left: Emu,
    top: Emu,
    width: Emu,
    height: Emu,
) -> (r: String)
    ensures
        r@ == movie_xml(shape_id, name@, video_r_id@, poster_r_id@, left, top, width, height),
{
    let mut s = String::new();
    string_push_str(&mut s, "<p:pic");
    push_ns(&mut s);
    string_push_str(&mut s, "><p:nvPicPr>");
    push_cnv_pr(&mut s, shape_id, name);
    string_push_str(&mut s, "/><p:cNvPicPr><a:picLocks noChangeAspect=\"1\"/></p:cNvPicPr><p:nvPr><a:videoFile r:link=\"");
    string_push_str(&mut s, video_r_id);
    string_push_str(&mut s, "\"/></p:nvPr></p:nvPicPr><p:blipFill><a:blip r:embed=\"");
    string_push_str(&mut s, poster_r_id);
    string_push_str(&mut s, "\"/><a:stretch><a:fillRect/></a:stretch></p:blipFill><p:spPr><a:xfrm>");
    push_off_ext(&mut s, left, top, width, height);
    string_push_str(&mut s, "</a:xfrm><a:prstGeom prst=\"rect\"><a:avLst/></a:prstGeom></p:spPr></p:pic>");
    assert(s@ =~= movie_xml(shape_id, name@, video_r_id@, poster_r_id@, left, top, width, height));
    s
}

/// The XML of a new empty group (see `group_xml`).
pub fn new_group_shape_xml(shape_id: ShapeId, name: &str, left: Emu, top: Emu, width: Emu, height: Emu) -> (r: String)
    ensures
        r@ == group_xml(shape_id, name@, left, top, width, height),
{
    let mut s = String::new();
    string_push_str(&mut s, "<p:grpSp");
    push_ns(&mut s);
    string_push_str(&mut s, "><p:nvGrpSpPr>");
    push_cnv_pr(&mut s, shape_id, name);
    string_push_str(&mut s, "/><p:cNvGrpSpPr/><p:nvPr/></p:nvGrpSpPr><p:grpSpPr><a:xfrm>");
    push_off_ext(&mut s, left, top, width, height);
    string_push_str(&mut s, "<a:chOff x=\"");
    push_i64(&mut s, left.0);
    string_push_str(&mut s, "\" y=\"");
    push_i64(&mut s, top.0);
    string_push_str(&mut s, "\"/><a:chExt cx=\"");
    push_i64(&mut s, width.0);
    string_push_str(&mut s, "\" cy=\"");
    push_i64(&mut s, height.0);
    string_push_str(&mut s, "\"/></a:xfrm></p:grpSpPr></p:grpSp>");
    assert(s@ =~= group_xml(shape_id, name@, left, top, width, height));
    s
}

/// `s` pushed `n` times onto `out`.
fn push_repeated(out: &mut String, s: &str, n: u32)
    ensures
        final(out)@ == old(out)@ + repeat(s@, n as nat),
{
    let ghost start = out@;
    let mut k: u32 = 0;
    while k < n
        invariant
            k <= n,
            out@ == start + repeat(s@, k as nat),
        decreases n - k,
    {
        string_push_str(out, s);
        assert(start + repeat(s@, (k + 1) as nat) =~= start + repeat(s@, k as nat) + s@);
        k = k + 1;
    }
}

/// A length divided by a positive count, rounding toward zero.
fn length_share(total: i64, n: u32) -> (r: i64)
    requires
        n > 0,
    ensures
        r as int == div_toward_zero(total as int, n as int),
{
    total / (n as i64)
}

/// The XML of a new table (see `table_xml`).
pub fn new_table_xml(
    shape_id: ShapeId,
    name: &str,
    rows: u32,
    cols: u32,
    left: Emu,
    top: Emu,
    width: Emu,
    height: Emu,
) -> (r: String)
    ensures
        r@ == table_xml(shape_id, name@, rows, cols, left, top, width, height),
{
    let col_width: i64 = if cols > 0 { length_share(width.0, cols) } else { width.0 };
    let row_height: i64 = if rows > 0 { length_share(height.0, rows) } else { height.0 };
    let mut col = String::new();
    string_push_str(&mut col, "<a:gridCol w=\"");
    push_i64(&mut col, col_width);
    string_push_str(&mut col, "\"/>");
    let mut row = String::new();
    string_push_str(&mut row, "<a:tr h=\"");
    push_i64(&mut row, row_height);
    string_push_str(&mut row, "\">");
    push_repeated(&mut row, "<a:tc><a:txBody><a:bodyPr/><a:lstStyle/><a:p><a:endParaRPr lang=\"en-US\"/></a:p></a:txBody><a:tcPr/></a:tc>", cols);
    string_push_str(&mut row, "</a:tr>");
    let mut s = String::new();
    string_push_str(&mut s, "<p:graphicFrame");
    push_ns(&mut s);
    string_push_str(&mut s, "><p:nvGraphicFramePr>");
    push_cnv_pr(&mut s, shape_id, name);
    string_push_str(&mut s, "/><p:cNvGraphicFramePr><a:graphicFrameLocks noGrp=\"1\"/></p:cNvGraphicFramePr><p:nvPr/></p:nvGraphicFramePr><p:xfrm>");
    push_off_ext(&mut s, left, top, width, height);
    string_push_str(&mut s, "</p:xfrm><a:graphic><a:graphicData uri=\"http://schemas.openxmlformats.org/drawingml/2006/table\"><a:tbl><a:tblPr firstRow=\"1\" bandRow=\"1\"><a:tableStyleId>{5C22544A-7EE6-4342-B048-85BDC9FD1C3A}</a:tableStyleId></a:tblPr><a:tblGrid>");
    push_repeated(&mut s, col.as_str(), cols);
    string_push_str(&mut s, "</a:tblGrid>");
    push_repeated(&mut s, row.as_str(), rows);
    string_push_str(&mut s, "</a:tbl></a:graphicData></a:graphic></p:graphicFrame>");
    assert(s@ =~= table_xml(shape_id, name@, rows, cols, left, top, width, height));
    s
}

/// The slide XML (read as UTF-8, invalid sequences replaced) with `shape_xml` inserted
/// before the first `</p:spTree>`; `None` without that end tag.
pub open spec fn shape_inserted(slide: Seq<u8>, shape_xml: Seq<char>) -> Option<Seq<char>> {
    let t = crate::text::lossy_utf8(slide);
    match find_from(t, "</p:spTree>"@, 0) {
        Some(p) => Some(inserted(t, p, shape_xml)),
        None => None,
    }
}

/// Inserts a shape's XML as the last child of the slide's shape tree, before the first
/// `</p:spTree>` (see `shape_inserted`); an error without that end tag.
pub fn insert_shape_xml(slide_xml: &[u8], shape_xml: &str) -> (r: Result<Vec<u8>, PptxError>)
    ensures
        match shape_inserted(slide_xml@, shape_xml@) {
            Some(u) => r matches Ok(b) && b@ == vstd::utf8::encode_utf8(u),
            None => r matches Err(PptxError::InvalidXml(_)),
        },
{
    let text = crate::text::string_from_utf8_lossy(slide_xml);
    let t = crate::text::str_to_chars(text.as_str());
    let end = crate::text::str_to_chars("</p:spTree>");
    match crate::id_list::find_chars(&t, &end, 0) {
        Some(p) => {
            proof { lemma_find_from(t@, end@, 0); }
            let u = crate::edit::insert_at(&t, p, shape_xml);
            Ok(crate::slide::chars_blob(&u))
        },
        None => Err(PptxError::InvalidXml("slide XML does not contain </p:spTree>".to_owned())),
    }
}


/// The shapes read from a slide's shape tree.
pub struct ShapeTree {
    pub shapes: Vec<crate::shapes::model::Shape>,
}

impl ShapeTree {
    /// Reads the shapes of a slide's XML (see `parse_shapes_from_slide_xml`).
    pub fn from_slide_xml(xml: &[u8]) -> (r: Result<ShapeTree, PptxError>)
        ensures
            match crate::shapes::parse::shapes_read(xml@) {
                Ok(l) => r matches Ok(t) && crate::shapes::parse::shapes_are(t.shapes@, l),
                Err(f) => r matches Err(e) && crate::shapes::parse::shape_fail_is(e, f),
            },
    {
        let shapes = crate::shapes::parse::parse_shapes_from_slide_xml(xml)?;
        Ok(ShapeTree { shapes })
    }

    /// The number of shapes.
    pub fn len(&self) -> (r: usize)
        ensures
            r == self.shapes@.len(),
    {
        self.shapes.len()
    }

    /// Whether there are no shapes.
    pub fn is_empty(&self) -> (r: bool)
        ensures
            r == (self.shapes@.len() == 0),
    {
        self.shapes.len() == 0
    }

    /// The largest shape id in use, 0 when there are no shapes.
    pub fn max_shape_id(&self) -> (r: ShapeId)
        ensures
            r.0 == max_id(self.shapes@),
    {
        let mut best: u32 = 0;
        let mut i: usize = 0;
        while i < self.shapes.len()
            invariant
                i <= self.shapes@.len(),
                best == max_id(self.shapes@.take(i as int)),
            decreases self.shapes.len() - i,
        {
            assert(self.shapes@.take(i as int + 1).drop_last() =~= self.shapes@.take(i as int));
            let id = self.shapes[i].shape_id();
            if id.0 > best {
                best = id.0;
            }
            i = i + 1;
        }
        assert(self.shapes@.take(i as int) =~= self.shapes@);
        ShapeId(best)
    }

    /// The first shape that is a title placeholder (title or centered title).
    pub fn title(&self) -> (r: Option<&crate::shapes::model::Shape>)
        ensures
            match first_title(self.shapes@, 0) {
                Some(k) => r matches Some(x) && *x == self.shapes@[k],
                None => r is None,
            },
    {
        let mut i: usize = 0;
        while i < self.shapes.len()
            invariant
                i <= self.shapes@.len(),
                first_title(self.shapes@, 0) == first_title(self.shapes@, i as int),
            decreases self.shapes.len() - i,
        {
            let t = match &self.shapes[i] {
                crate::shapes::model::Shape::AutoShape(a) => match &a.placeholder { Some(p) => p.is_title(), None => false },
                crate::shapes::model::Shape::Picture(a) => match &a.placeholder { Some(p) => p.is_title(), None => false },
                crate::shapes::model::Shape::GraphicFrame(a) => match &a.placeholder { Some(p) => p.is_title(), None => false },
                _ => false,
            };
            if t {
                return Some(&self.shapes[i]);
            }
            i = i + 1;
        }
        None
    }

    /// The shapes that are placeholders, in order.
    pub fn placeholders(&self) -> (r: Vec<&crate::shapes::model::Shape>)
        ensures
            r@.len() == placeholder_positions(self.shapes@).len(),
            forall|k: int| 0 <= k < r@.len() ==> *#[trigger] r@[k] == self.shapes@[placeholder_positions(self.shapes@)[k]],
    {
        placeholders_of(&self.shapes)
    }
}

/// The shapes of a list that are placeholders, in order.
pub fn placeholders_of(shapes: &Vec<crate::shapes::model::Shape>) -> (r: Vec<&crate::shapes::model::Shape>)
    ensures
        r@.len() == placeholder_positions(shapes@).len(),
        forall|k: int| 0 <= k < r@.len() ==> *#[trigger] r@[k] == shapes@[placeholder_positions(shapes@)[k]],
{
    let mut out: Vec<&crate::shapes::model::Shape> = Vec::new();
    let mut i: usize = 0;
    while i < shapes.len()
        invariant
            i <= shapes@.len(),
            out@.len() == placeholder_positions(shapes@.take(i as int)).len(),
            forall|k: int| 0 <= k < out@.len() ==> *#[trigger] out@[k] == shapes@[placeholder_positions(shapes@.take(i as int))[k]],
        decreases shapes.len() - i,
    {
        let ghost pre = shapes@.take(i as int);
        assert(shapes@.take(i as int + 1).drop_last() =~= pre);
        proof { lemma_positions_bound(pre); }
        if shapes[i].is_placeholder() {
            out.push(&shapes[i]);
        }
        i = i + 1;
    }
    assert(shapes@.take(i as int) =~= shapes@);
    out
}

/// The largest id among shapes, 0 when there are none.
pub open spec fn max_id(v: Seq<crate::shapes::model::Shape>) -> u32
    decreases v.len(),
{
    if v.len() == 0 {
        0
    } else {
        let m = max_id(v.drop_last());
        let id = crate::shapes::model::common_of(v.last()).0.0;
        if id > m { id } else { m }
    }
}

/// Whether a shape is a title placeholder.
pub open spec fn is_title_shape(s: crate::shapes::model::Shape) -> bool {
    crate::shapes::model::placeholder_of_shape(s) matches Some(p)
        && (p.ph_type == Some(crate::enums::PpPlaceholderType::Title)
            || p.ph_type == Some(crate::enums::PpPlaceholderType::CenterTitle))
}

/// The position of the first title placeholder at or after `i`.
pub open spec fn first_title(v: Seq<crate::shapes::model::Shape>, i: int) -> Option<int>
    decreases v.len() - i,
{
    if i < 0 || i >= v.len() {
        None
    } else if is_title_shape(v[i]) {
        Some(i)
    } else {
        first_title(v, i + 1)
    }
}

/// The positions of the placeholders among shapes, in order.
pub open spec fn placeholder_positions(v: Seq<crate::shapes::model::Shape>) -> Seq<int>
    decreases v.len(),
{
    if v.len() == 0 {
        Seq::empty()
    } else {
        let p = placeholder_positions(v.drop_last());
        if crate::shapes::model::placeholder_of_shape(v.last()) is Some { p.push(v.len() - 1) } else { p }
    }
}

proof fn lemma_positions_bound(v: Seq<crate::shapes::model::Shape>)
    ensures
        forall|k: int| 0 <= k < placeholder_positions(v).len() ==> 0 <= #[trigger] placeholder_positions(v)[k] < v.len(),
    decreases v.len(),
{
    if v.len() > 0 {
        lemma_positions_bound(v.drop_last());
        let p = placeholder_positions(v.drop_last());
        assert forall|k: int| 0 <= k < placeholder_positions(v).len() implies 0 <= #[trigger] placeholder_positions(v)[k] < v.len() by {
            if k < p.len() {
                assert(placeholder_positions(v)[k] == p[k]);
            }
        }
    }
}


/// The largest shape id among what was read of a slide's shapes, 0 when there are none.
pub open spec fn read_max_id(l: Seq<crate::shapes::parse::AccumView>) -> u32
    decreases l.len(),
{
    if l.len() == 0 {
        0
    } else {
        let m = read_max_id(l.drop_last());
        if l.last().shape_id > m { l.last().shape_id } else { m }
    }
}

/// Whether `name` starts with `prefix`.
pub open spec fn starts_with(name: Seq<char>, prefix: Seq<char>) -> bool {
    prefix.len() <= name.len() && name.subrange(0, prefix.len() as int) == prefix
}

/// How many of the shapes read have a name that starts with `prefix`.
pub open spec fn read_prefix_count(l: Seq<crate::shapes::parse::AccumView>, prefix: Seq<char>) -> nat
    decreases l.len(),
{
    if l.len() == 0 {
        0
    } else {
        read_prefix_count(l.drop_last(), prefix) + if starts_with(l.last().name, prefix) { 1nat } else { 0nat }
    }
}

/// The id and name of a new shape with base name `base` on a slide whose shapes were read
/// as `l`: one more than the largest id, and the base name followed by one more than the
/// number of shapes named with it; `None` when either number does not fit.
pub open spec fn id_and_name(l: Seq<crate::shapes::parse::AccumView>, base: Seq<char>) -> Option<(ShapeId, Seq<char>)> {
    if read_max_id(l) == u32::MAX || read_prefix_count(l, base) >= u32::MAX {
        None
    } else {
        Some((ShapeId((read_max_id(l) + 1) as u32), base + " "@ + nat_digits(read_prefix_count(l, base) + 1)))
    }
}

/// Whether `name` starts with `prefix`.
pub(crate) fn starts_with_exec(name: &str, prefix: &str) -> (r: bool)
    ensures
        r == starts_with(name@, prefix@),
{
    let n = crate::text::str_to_chars(name);
    let p = crate::text::str_to_chars(prefix);
    if p.len() > n.len() {
        return false;
    }
    let mut i: usize = 0;
    while i < p.len()
        invariant
            n@ == name@,
            p@ == prefix@,
            p.len() <= n.len(),
            i <= p.len(),
            forall|j: int| 0 <= j < i ==> n@[j] == p@[j],
        decreases p.len() - i,
    {
        if n[i] != p[i] {
            assert(name@.subrange(0, prefix@.len() as int)[i as int] != prefix@[i as int]);
            return false;
        }
        i = i + 1;
    }
    assert(name@.subrange(0, prefix@.len() as int) =~= prefix@);
    true
}

/// The largest id and the number of names with prefix `base` agree between the shapes and
/// what was read of them.
proof fn lemma_read_agrees(v: Seq<crate::shapes::model::Shape>, l: Seq<crate::shapes::parse::AccumView>, base: Seq<char>)
    requires
        crate::shapes::parse::shapes_are(v, l),
    ensures
        max_id(v) == read_max_id(l),
        shape_prefix_count(v, base) == read_prefix_count(l, base),
    decreases l.len(),
{
    if l.len() > 0 {
        let v2 = v.drop_last();
        let l2 = l.drop_last();
        assert forall|i: int| 0 <= i < v2.len() implies crate::shapes::parse::shape_is(#[trigger] v2[i], l2[i]) by {
            assert(v2[i] == v[i]);
            assert(l2[i] == l[i]);
        }
        lemma_read_agrees(v2, l2, base);
        assert(crate::shapes::parse::shape_is(v[v.len() - 1], l[l.len() - 1]));
    }
}

/// How many shapes have a name that starts with `prefix`.
pub open spec fn shape_prefix_count(v: Seq<crate::shapes::model::Shape>, prefix: Seq<char>) -> nat
    decreases v.len(),
{
    if v.len() == 0 {
        0
    } else {
        shape_prefix_count(v.drop_last(), prefix)
            + if starts_with(crate::shapes::model::common_of(v.last()).1, prefix) { 1nat } else { 0nat }
    }
}

/// Whether an error is the one reading the slide's shapes, or naming the new shape, fails with.
pub open spec fn add_fail_is(e: PptxError, r: Result<Seq<crate::shapes::parse::AccumView>, crate::shapes::parse::ShapeFail>) -> bool {
    match r {
        Err(f) => crate::shapes::parse::shape_fail_is(e, f),
        Ok(_) => e is InvalidXml,
    }
}

/// What adding a shape with base name `base` and XML `make(id, name)` gives for a slide:
/// the slide text with the shape inserted before `</p:spTree>`, as UTF-8 bytes; `None`
/// when the shapes cannot be read, the id or name does not fit, or there is no shape tree.
pub open spec fn shape_added(slide: Seq<u8>, base: Seq<char>, make: spec_fn(ShapeId, Seq<char>) -> Seq<char>) -> Option<Seq<u8>> {
    match crate::shapes::parse::shapes_read(slide) {
        Ok(l) => match id_and_name(l, base) {
            Some((id, nm)) => match shape_inserted(slide, make(id, nm)) {
                Some(u) => Some(vstd::utf8::encode_utf8(u)),
                None => None,
            },
            None => None,
        },
        Err(_) => None,
    }
}

impl ShapeTree {
    /// How many shapes have a name that starts with `prefix`, at most `u32::MAX`.
    pub fn count_shapes_with_prefix(&self, prefix: &str) -> (r: u32)
        ensures
            r as nat == (if shape_prefix_count(self.shapes@, prefix@) > u32::MAX { u32::MAX as nat } else { shape_prefix_count(self.shapes@, prefix@) }),
    {
        let mut count: u64 = 0;
        let mut i: usize = 0;
        while i < self.shapes.len()
            invariant
                i <= self.shapes@.len(),
                count == shape_prefix_count(self.shapes@.take(i as int), prefix@),
                count <= i,
            decreases self.shapes.len() - i,
        {
            assert(self.shapes@.take(i as int + 1).drop_last() =~= self.shapes@.take(i as int));
            if starts_with_exec(self.shapes[i].name(), prefix) {
                count = count + 1;
            }
            i = i + 1;
        }
        assert(self.shapes@.take(i as int) =~= self.shapes@);
        if count > 0xFFFF_FFFF { 0xFFFF_FFFF } else { count as u32 }
    }

    /// The id and name for a new shape with base name `base` (see `id_and_name`).
    fn next_id_and_name(slide_xml: &[u8], base: &str) -> (r: Result<(ShapeId, String), PptxError>)
        ensures
            match crate::shapes::parse::shapes_read(slide_xml@) {
                Ok(l) => match id_and_name(l, base@) {
                    Some((id, nm)) => r matches Ok((i, s)) && i == id && s@ == nm,
                    None => r matches Err(e) && e is InvalidXml,
                },
                Err(f) => r matches Err(e) && crate::shapes::parse::shape_fail_is(e, f),
            },
    {
        let tree = ShapeTree::from_slide_xml(slide_xml)?;
        let ghost l = crate::shapes::parse::shapes_read(slide_xml@)->Ok_0;
        proof { lemma_read_agrees(tree.shapes@, l, base@); }
        let max = tree.max_shape_id();
        let count = tree.count_shapes_with_prefix(base);
        if max.0 == 0xFFFF_FFFF || count == 0xFFFF_FFFF {
            return Err(PptxError::InvalidXml("no shape id or name is left".to_owned()));
        }
        let mut name = String::new();
        string_push_str(&mut name, base);
        string_push_str(&mut name, " ");
        push_u64(&mut name, (count + 1) as u64);
        assert(name@ =~= base@ + " "@ + nat_digits((read_prefix_count(l, base@) + 1) as nat));
        Ok((ShapeId(max.0 + 1), name))
    }

    /// Adds a shape with the given preset geometry to a slide's XML, named after the
    /// geometry (see `shape_added`, `shape_name_spec`).
    pub fn add_shape(slide_xml: &[u8], prst: &str, left: Emu, top: Emu, width: Emu, height: Emu) -> (r: Result<Vec<u8>, PptxError>)
        ensures
            match shape_added(slide_xml@, crate::shapes::names::shape_name_spec(prst@),
                |id: ShapeId, nm: Seq<char>| autoshape_xml(id, nm, left, top, width, height, prst@)) {
                Some(b) => r matches Ok(x) && x@ == b,
                None => r matches Err(e) && add_fail_is(e, crate::shapes::parse::shapes_read(slide_xml@)),
            },
    {
        let base = crate::shapes::names::shape_name_for_prst(prst);
        let (id, name) = ShapeTree::next_id_and_name(slide_xml, base)?;
        let xml = new_autoshape_xml(id, name.as_str(), left, top, width, height, prst);
        ShapeTree::insert_shape_xml(slide_xml, xml.as_str())
    }

    /// Adds a text box to a slide's XML, named `TextBox n` (see `shape_added`).
    pub fn add_textbox(slide_xml: &[u8], left: Emu, top: Emu, width: Emu, height: Emu) -> (r: Result<Vec<u8>, PptxError>)
        ensures
            match shape_added(slide_xml@, "TextBox"@, |id: ShapeId, nm: Seq<char>| textbox_xml(id, nm, left, top, width, height)) {
                Some(b) => r matches Ok(x) && x@ == b,
                None => r matches Err(e) && add_fail_is(e, crate::shapes::parse::shapes_read(slide_xml@)),
            },
    {
        let (id, name) = ShapeTree::next_id_and_name(slide_xml, "TextBox")?;
        let xml = new_textbox_xml(id, name.as_str(), left, top, width, height);
        ShapeTree::insert_shape_xml(slide_xml, xml.as_str())
    }

    /// Adds a picture of the image with relationship id `image_r_id` to a slide's XML,
    /// named `Picture n` (see `shape_added`).
    pub fn add_picture(slide_xml: &[u8], image_r_id: &str, left: Emu, top: Emu, width: Emu, height: Emu) -> (r: Result<Vec<u8>, PptxError>)
        ensures
            match shape_added(slide_xml@, "Picture"@, |id: ShapeId, nm: Seq<char>| picture_xml(id, nm, ""@, image_r_id@, left, top, width, height)) {
                Some(b) => r matches Ok(x) && x@ == b,
                None => r matches Err(e) && add_fail_is(e, crate::shapes::parse::shapes_read(slide_xml@)),
            },
    {
        let (id, name) = ShapeTree::next_id_and_name(slide_xml, "Picture")?;
        let xml = new_picture_xml(id, name.as_str(), "", image_r_id, left, top, width, height);
        ShapeTree::insert_shape_xml(slide_xml, xml.as_str())
    }

    /// Adds a table of `rows` by `cols` cells to a slide's XML, named `Table n` (see
    /// `shape_added`).
    pub fn add_table(slide_xml: &[u8], rows: u32, cols: u32, left: Emu, top: Emu, width: Emu, height: Emu) -> (r: Result<Vec<u8>, PptxError>)
        ensures
            match shape_added(slide_xml@, "Table"@, |id: ShapeId, nm: Seq<char>| table_xml(id, nm, rows, cols, left, top, width, height)) {
                Some(b) => r matches Ok(x) && x@ == b,
                None => r matches Err(e) && add_fail_is(e, crate::shapes::parse::shapes_read(slide_xml@)),
            },
    {
        let (id, name) = ShapeTree::next_id_and_name(slide_xml, "Table")?;
        let xml = new_table_xml(id, name.as_str(), rows, cols, left, top, width, height);
        ShapeTree::insert_shape_xml(slide_xml, xml.as_str())
    }

    /// Adds an empty group to a slide's XML, named `Group n` (see `shape_added`).
    pub fn add_group_shape(slide_xml: &[u8], left: Emu, top: Emu, width: Emu, height: Emu) -> (r: Result<Vec<u8>, PptxError>)
        ensures
            match shape_added(slide_xml@, "Group"@, |id: ShapeId, nm: Seq<char>| group_xml(id, nm, left, top, width, height)) {
                Some(b) => r matches Ok(x) && x@ == b,
                None => r matches Err(e) && add_fail_is(e, crate::shapes::parse::shapes_read(slide_xml@)),
            },
    {
        let (id, name) = ShapeTree::next_id_and_name(slide_xml, "Group")?;
        let xml = new_group_shape_xml(id, name.as_str(), left, top, width, height);
        ShapeTree::insert_shape_xml(slide_xml, xml.as_str())
    }

    /// Adds a movie with its video and poster image relationships to a slide's XML, named
    /// `Movie n` (see `shape_added`).
    pub fn add_movie(slide_xml: &[u8], video_r_id: &str, poster_r_id: &str, left: Emu, top: Emu, width: Emu, height: Emu) -> (r: Result<Vec<u8>, PptxError>)
        ensures
            match shape_added(slide_xml@, "Movie"@, |id: ShapeId, nm: Seq<char>| movie_xml(id, nm, video_r_id@, poster_r_id@, left, top, width, height)) {
                Some(b) => r matches Ok(x) && x@ == b,
                None => r matches Err(e) && add_fail_is(e, crate::shapes::parse::shapes_read(slide_xml@)),
            },
    {
        let (id, name) = ShapeTree::next_id_and_name(slide_xml, "Movie")?;
        let xml = new_movie_xml(id, name.as_str(), video_r_id, poster_r_id, left, top, width, height);
        ShapeTree::insert_shape_xml(slide_xml, xml.as_str())
    }

    /// Adds a connector from (`begin_x`, `begin_y`) to (`end_x`, `end_y`) to a slide's XML,
    /// named `Connector n`: its box spans the two points, flipped horizontally when it runs
    /// right to left and vertically when it runs bottom to top (see `shape_added`).
    pub fn add_connector(slide_xml: &[u8], prst: &str, begin_x: Emu, begin_y: Emu, end_x: Emu, end_y: Emu) -> (r: Result<Vec<u8>, PptxError>)
        requires
            i64::MIN <= end_x.0 - begin_x.0 <= i64::MAX,
            i64::MIN <= begin_x.0 - end_x.0 <= i64::MAX,
            i64::MIN <= end_y.0 - begin_y.0 <= i64::MAX,
            i64::MIN <= begin_y.0 - end_y.0 <= i64::MAX,
        ensures
            match shape_added(slide_xml@, "Connector"@, |id: ShapeId, nm: Seq<char>| connector_flip_xml(id, nm,
                if begin_x.0 <= end_x.0 { begin_x } else { end_x },
                if begin_y.0 <= end_y.0 { begin_y } else { end_y },
                Emu((if begin_x.0 <= end_x.0 { end_x.0 - begin_x.0 } else { begin_x.0 - end_x.0 }) as i64),
                Emu((if begin_y.0 <= end_y.0 { end_y.0 - begin_y.0 } else { begin_y.0 - end_y.0 }) as i64),
                prst@, begin_x.0 > end_x.0, begin_y.0 > end_y.0)) {
                Some(b) => r matches Ok(x) && x@ == b,
                None => r matches Err(e) && add_fail_is(e, crate::shapes::parse::shapes_read(slide_xml@)),
            },
    {
        let (id, name) = ShapeTree::next_id_and_name(slide_xml, "Connector")?;
        let (left, width, flip_h) = if begin_x.0 <= end_x.0 {
            (begin_x, Emu(end_x.0 - begin_x.0), false)
        } else {
            (end_x, Emu(begin_x.0 - end_x.0), true)
        };
        let (top, height, flip_v) = if begin_y.0 <= end_y.0 {
            (begin_y, Emu(end_y.0 - begin_y.0), false)
        } else {
            (end_y, Emu(begin_y.0 - end_y.0), true)
        };
        let xml = new_connector_xml_with_flip(id, name.as_str(), left, top, width, height, prst, flip_h, flip_v);
        ShapeTree::insert_shape_xml(slide_xml, xml.as_str())
    }

    /// Inserts a shape's XML into a slide's XML (see `insert_shape_xml`).
    pub fn insert_shape_xml(slide_xml: &[u8], shape_xml: &str) -> (r: Result<Vec<u8>, PptxError>)
        ensures
            match shape_inserted(slide_xml@, shape_xml@) {
                Some(u) => r matches Ok(b) && b@ == vstd::utf8::encode_utf8(u),
                None => r matches Err(PptxError::InvalidXml(_)),
            },
    {
        insert_shape_xml(slide_xml, shape_xml)
    }
}

/// Every id read is at most the largest.
proof fn lemma_read_max_bound(l: Seq<crate::shapes::parse::AccumView>)
    ensures
        forall|k: int| 0 <= k < l.len() ==> #[trigger] l[k].shape_id <= read_max_id(l),
    decreases l.len(),
{
    if l.len() > 0 {
        lemma_read_max_bound(l.drop_last());
        assert forall|k: int| 0 <= k < l.len() implies #[trigger] l[k].shape_id <= read_max_id(l) by {
            if k < l.len() - 1 {
                assert(l[k] == l.drop_last()[k]);
            }
        }
    }
}

/// A shape added to a slide gets an id that no shape of the slide has: larger than every
/// id read from it.
pub proof fn lemma_new_shape_id_fresh(l: Seq<crate::shapes::parse::AccumView>, base: Seq<char>)
    ensures
        id_and_name(l, base) matches Some((id, _)) ==> forall|k: int| 0 <= k < l.len() ==> #[trigger] l[k].shape_id < id.0,
{
    lemma_read_max_bound(l);
}
} // verus!
