//! Freeform shape builder for custom geometry paths (`<a:custGeom>`).
use vstd::prelude::*;
use crate::text::{int_text, push_i64, string_push_str};

verus! {

/// A segment in a freeform path.
#[derive(Debug, Clone, PartialEq, Eq, Structural)]
pub enum FreeformSegment {
    LineTo(i64, i64),
    MoveTo(i64, i64),
    CurveTo(i64, i64, i64, i64, i64, i64),
    Close,
}

/// A builder for freeform (custom geometry) shapes: a starting point, the
/// bounding size of the path, and the segments added so far.
#[derive(Debug, Clone, PartialEq, Eq)]
pub struct FreeformBuilder {
    start_x: i64,
    start_y: i64,
    segments: Vec<FreeformSegment>,
    width: i64,
    height: i64,
}

/// What a builder holds: start point, path size, and the segments in order.
pub struct FreeformView {
    pub start_x: i64,
    pub start_y: i64,
    pub width: i64,
    pub height: i64,
    pub segments: Seq<FreeformSegment>,
}

impl View for FreeformBuilder {
    type V = FreeformView;

    closed spec fn view(&self) -> FreeformView {
        FreeformView {
            start_x: self.start_x,
            start_y: self.start_y,
            width: self.width,
            height: self.height,
            segments: self.segments@,
        }
    }
}

/// The same builder with one more segment at the end.
pub open spec fn with_segment(v: FreeformView, s: FreeformSegment) -> FreeformView {
    FreeformView { segments: v.segments.push(s), ..v }
}

/// `<a:pt x=".." y=".."/>`
pub open spec fn pt_xml(x: i64, y: i64) -> Seq<char> {
    "<a:pt x=\""@ + int_text(x as int) + "\" y=\""@ + int_text(y as int) + "\"/>"@
}

/// The path element written for one segment.
pub open spec fn segment_xml(s: FreeformSegment) -> Seq<char> {
    match s {
        FreeformSegment::LineTo(x, y) => "<a:lnTo>"@ + pt_xml(x, y) + "</a:lnTo>"@,
        FreeformSegment::MoveTo(x, y) => "<a:moveTo>"@ + pt_xml(x, y) + "</a:moveTo>"@,
        FreeformSegment::CurveTo(x1, y1, x2, y2, x, y) => "<a:cubicBezTo>"@ + pt_xml(x1, y1)
            + pt_xml(x2, y2) + pt_xml(x, y) + "</a:cubicBezTo>"@,
        FreeformSegment::Close => "<a:close/>"@,
    }
}

/// The path elements of a list of segments, in order.
pub open spec fn segments_xml(segs: Seq<FreeformSegment>) -> Seq<char>
    decreases segs.len(),
{
    if segs.len() == 0 {
        Seq::empty()
    } else {
        segments_xml(segs.drop_last()) + segment_xml(segs.last())
    }
}

/// Everything of the `<a:custGeom>` element before the segments.
pub open spec fn freeform_head(v: FreeformView) -> Seq<char> {
    "<a:custGeom>"@ + "<a:avLst/>"@ + "<a:gdLst/>"@ + "<a:ahLst/>"@ + "<a:cxnLst/>"@
        + "<a:rect l=\"l\" t=\"t\" r=\"r\" b=\"b\"/>"@ + "<a:pathLst>"@
        + "<a:path w=\""@ + int_text(v.width as int) + "\" h=\""@ + int_text(v.height as int) + "\">"@
        + "<a:moveTo>"@ + pt_xml(v.start_x, v.start_y) + "</a:moveTo>"@
}

/// The `<a:custGeom>` element for a builder: a single path of the builder's size that
/// starts with a move to the start point, followed by the segments.
pub open spec fn freeform_xml(v: FreeformView) -> Seq<char> {
    freeform_head(v)
        + segments_xml(v.segments)
        + "</a:path>"@ + "</a:pathLst>"@ + "</a:custGeom>"@
}

/// Adding a segment (`line_to`, `move_to`, `curve_to`, `close`) writes the path as before
/// with the new segment added just before the path closes.
pub proof fn lemma_segment_written_last(v: FreeformView, s: FreeformSegment)
    ensures
        freeform_xml(with_segment(v, s)) == freeform_head(v) + segments_xml(v.segments) + segment_xml(s)
            + "</a:path>"@ + "</a:pathLst>"@ + "</a:custGeom>"@,
{
    let w = with_segment(v, s);
    assert(w.segments.drop_last() =~= v.segments);
    assert(w.segments.last() == s);
    assert(freeform_head(w) == freeform_head(v));
    assert(segments_xml(w.segments) == segments_xml(v.segments) + segment_xml(s));
    assert(freeform_xml(w) =~= freeform_head(v) + segments_xml(v.segments) + segment_xml(s)
        + "</a:path>"@ + "</a:pathLst>"@ + "</a:custGeom>"@);
}

fn write_pt(out: &mut String, x: i64, y: i64)
    ensures
        final(out)@ == old(out)@ + pt_xml(x, y),
{
    string_push_str(out, "<a:pt x=\"");
    push_i64(out, x);
    string_push_str(out, "\" y=\"");
    push_i64(out, y);
    string_push_str(out, "\"/>");
    assert(out@ =~= old(out)@ + pt_xml(x, y));
}

fn write_segment(out: &mut String, s: &FreeformSegment)
    ensures
        final(out)@ == old(out)@ + segment_xml(*s),
{
    match s {
        FreeformSegment::LineTo(x, y) => {
            string_push_str(out, "<a:lnTo>");
            write_pt(out, *x, *y);
            string_push_str(out, "</a:lnTo>");
        },
        FreeformSegment::MoveTo(x, y) => {
            string_push_str(out, "<a:moveTo>");
            write_pt(out, *x, *y);
            string_push_str(out, "</a:moveTo>");
        },
        FreeformSegment::CurveTo(x1, y1, x2, y2, x, y) => {
            string_push_str(out, "<a:cubicBezTo>");
            write_pt(out, *x1, *y1);
            write_pt(out, *x2, *y2);
            write_pt(out, *x, *y);
            string_push_str(out, "</a:cubicBezTo>");
        },
        FreeformSegment::Close => {
            string_push_str(out, "<a:close/>");
        },
    }
    assert(out@ =~= old(out)@ + segment_xml(*s));
}

impl FreeformBuilder {
    /// Create a new freeform builder with the starting point and bounding dimensions.
    pub fn new(start_x: i64, start_y: i64, width: i64, height: i64) -> (r: Self)
        ensures
            r@.start_x == start_x,
            r@.start_y == start_y,
            r@.width == width,
            r@.height == height,
            r@.segments == Seq::<FreeformSegment>::empty(),
    {
        FreeformBuilder { start_x, start_y, segments: Vec::new(), width, height }
    }

    /// Add a line-to segment.
    pub fn line_to(&mut self, x: i64, y: i64) -> (r: &mut Self)
        ensures
            r@ == with_segment(old(self)@, FreeformSegment::LineTo(x, y)),
            *final(self) == *final(r),
    {
        self.segments.push(FreeformSegment::LineTo(x, y));
        self
    }

    /// Add a move-to segment.
    pub fn move_to(&mut self, x: i64, y: i64) -> (r: &mut Self)
        ensures
            r@ == with_segment(old(self)@, FreeformSegment::MoveTo(x, y)),
            *final(self) == *final(r),
    {
        self.segments.push(FreeformSegment::MoveTo(x, y));
        self
    }

    /// Add a cubic bezier curve-to segment: control points (x1, y1), (x2, y2), end point (x, y).
    pub fn curve_to(&mut self, x1: i64, y1: i64, x2: i64, y2: i64, x: i64, y: i64) -> (r: &mut Self)
        ensures
            r@ == with_segment(old(self)@, FreeformSegment::CurveTo(x1, y1, x2, y2, x, y)),
            *final(self) == *final(r),
    {
        self.segments.push(FreeformSegment::CurveTo(x1, y1, x2, y2, x, y));
        self
    }

    /// Close the current sub-path.
    pub fn close(&mut self) -> (r: &mut Self)
        ensures
            r@ == with_segment(old(self)@, FreeformSegment::Close),
            *final(self) == *final(r),
    {
        self.segments.push(FreeformSegment::Close);
        self
    }

    fn write_head(&self, out: &mut String)
        ensures
            final(out)@ == old(out)@ + freeform_head(self@),
    {
        string_push_str(out, "<a:custGeom>");
        string_push_str(out, "<a:avLst/>");
        string_push_str(out, "<a:gdLst/>");
        string_push_str(out, "<a:ahLst/>");
        string_push_str(out, "<a:cxnLst/>");
        string_push_str(out, "<a:rect l=\"l\" t=\"t\" r=\"r\" b=\"b\"/>");
        string_push_str(out, "<a:pathLst>");
        string_push_str(out, "<a:path w=\"");
        push_i64(out, self.width);
        string_push_str(out, "\" h=\"");
        push_i64(out, self.height);
        string_push_str(out, "\">");
        string_push_str(out, "<a:moveTo>");
        write_pt(out, self.start_x, self.start_y);
        string_push_str(out, "</a:moveTo>");
        assert(out@ =~= old(out)@ + freeform_head(self@));
    }

    fn write_segments(&self, out: &mut String)
        ensures
            final(out)@ == old(out)@ + segments_xml(self@.segments),
    {
        let ghost before = out@;
        let mut i: usize = 0;
        while i < self.segments.len()
            invariant
                i <= self.segments.len(),
                out@ == before + segments_xml(self.segments@.take(i as int)),
            decreases self.segments.len() - i,
        {
            write_segment(out, &self.segments[i]);
            assert(self.segments@.take(i as int + 1).drop_last() =~= self.segments@.take(i as int));
            assert(out@ =~= before + segments_xml(self.segments@.take(i as int + 1)));
            i = i + 1;
        }
        assert(self.segments@.take(i as int) =~= self.segments@);
    }

    /// Appends the `<a:custGeom>` element for this path.
    pub fn write_xml(&self, out: &mut String)
        ensures
            final(out)@ == old(out)@ + freeform_xml(self@),
    {
        self.write_head(out);
        self.write_segments(out);
        string_push_str(out, "</a:path>");
        string_push_str(out, "</a:pathLst>");
        string_push_str(out, "</a:custGeom>");
        assert(out@ =~= old(out)@ + freeform_xml(self@));
    }

    /// The `<a:custGeom>` element for this path as a string.
    pub fn to_xml_string(&self) -> (r: String)
        ensures
            r@ == freeform_xml(self@),
    {
        let mut s = String::new();
        self.write_xml(&mut s);
        assert(s@ =~= freeform_xml(self@));
        s
    }
}

} // verus!
