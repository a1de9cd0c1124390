//! Writing colours, fills and outlines as DrawingML XML.
use vstd::prelude::*;
use crate::shapes::color::{ColorFormat, ColorView};
use crate::shapes::fill::{FillFormat, FillView, LineFormat, LineView, stops_view};
use crate::shapes::text_xml::{hex6, nattr, opt_xattr, push_hex2, push_nattr, push_opt_xattr, push_xattr, xattr};
use crate::text::{string_push_str};

verus! {

/// The luminance modifiers that stand for a brightness: a tint `b > 0` as `lumMod` of
/// `100000 - b` and `lumOff` of `b`, a shade `b < 0` as `lumMod` of `100000 + b`; none for 0
/// or a brightness beyond 100000 either way.
pub open spec fn brightness_xml(b: Option<int>) -> Seq<char> {
    match b {
        Some(v) => if 0 < v <= 100000 {
            "<a:lumMod"@ + nattr("val"@, 100000 - v) + "/><a:lumOff"@ + nattr("val"@, v) + "/>"@
        } else if -100000 <= v < 0 {
            "<a:lumMod"@ + nattr("val"@, 100000 + v) + "/>"@
        } else {
            Seq::empty()
        },
        None => Seq::empty(),
    }
}

/// The modifiers that a brightness is written with give that brightness back when read:
/// a tint `b` is written as `lumMod = 100000 - b` with `lumOff = b`, a shade `b` as
/// `lumMod = 100000 + b` alone.
pub proof fn lemma_brightness_reads_back(b: int)
    requires
        -100000 <= b <= 100000,
        b != 0,
    ensures
        b > 0 ==> crate::theme::brightness_of(Some((100000 - b) as i64), Some(b as i64)) == Some(b),
        b < 0 ==> crate::theme::brightness_of(Some((100000 + b) as i64), None) == Some(b),
{
}

/// A colour element.
pub open spec fn color_xml(c: ColorView) -> Seq<char> {
    match c {
        ColorView::Rgb(rgb) => "<a:srgbClr val=\""@ + hex6(rgb) + "\"/>"@,
        ColorView::Theme(t, b) => {
            let m = brightness_xml(b);
            if m.len() == 0 {
                "<a:schemeClr"@ + xattr("val"@, t) + "/>"@
            } else {
                "<a:schemeClr"@ + xattr("val"@, t) + ">"@ + m + "</a:schemeClr>"@
            }
        },
        ColorView::System(v, l) => "<a:sysClr"@ + xattr("val"@, v) + opt_xattr("lastClr"@, l) + "/>"@,
        ColorView::Hsl(h, s, l) => "<a:hslClr"@ + nattr("hue"@, h as int) + nattr("sat"@, s as int) + nattr("lum"@, l as int) + "/>"@,
        ColorView::Preset(p) => "<a:prstClr"@ + xattr("val"@, p) + "/>"@,
    }
}

/// Gradient stops, in order.
pub open spec fn stops_xml(s: Seq<(i64, ColorView)>) -> Seq<char>
    decreases s.len(),
{
    if s.len() == 0 {
        Seq::empty()
    } else {
        stops_xml(s.drop_last()) + "<a:gs"@ + nattr("pos"@, s.last().0 as int) + ">"@ + color_xml(s.last().1) + "</a:gs>"@
    }
}

/// A fill element.
pub open spec fn fill_xml(f: FillView) -> Seq<char> {
    match f {
        FillView::NoFill => "<a:noFill/>"@,
        FillView::Background => "<a:grpFill/>"@,
        FillView::Solid(c) => "<a:solidFill>"@ + color_xml(c) + "</a:solidFill>"@,
        FillView::Gradient(s, a) => "<a:gradFill><a:gsLst>"@ + stops_xml(s) + "</a:gsLst>"@
            + (match a {
                Some(v) => "<a:lin"@ + nattr("ang"@, v as int) + " scaled=\"0\"/>"@,
                None => Seq::empty(),
            })
            + "</a:gradFill>"@,
    }
}

/// An outline element: its width, its fill (or, without one, a solid fill of its colour),
/// its dash.
pub open spec fn line_xml(l: LineView) -> Seq<char> {
    "<a:ln"@ + (match l.width { Some(w) => nattr("w"@, w as int), None => Seq::empty() }) + ">"@
        + (match l.fill {
            Some(f) => fill_xml(f),
            None => match l.color {
                Some(c) => "<a:solidFill>"@ + color_xml(c) + "</a:solidFill>"@,
                None => Seq::empty(),
            },
        })
        + (match l.dash_style { Some(d) => "<a:prstDash"@ + xattr("val"@, d) + "/>"@, None => Seq::empty() })
        + "</a:ln>"@
}

#[verifier::spinoff_prover]
#[verifier::rlimit(40)]
fn push_brightness(out: &mut String, b: Option<i128>) -> (wrote: bool)
    ensures
        final(out)@ == old(out)@ + brightness_xml(crate::theme::opt_wide(b)),
        wrote == (brightness_xml(crate::theme::opt_wide(b)).len() > 0),
{
    proof { reveal_strlit("<a:lumMod"); reveal_strlit("/><a:lumOff"); reveal_strlit("/>"); }
    match b {
        Some(v) => {
            if 0 < v && v <= 100000 {
                string_push_str(out, "<a:lumMod");
                push_nattr(out, "val", (100000 - v) as i64);
                string_push_str(out, "/><a:lumOff");
                push_nattr(out, "val", v as i64);
                string_push_str(out, "/>");
                assert(out@ =~= old(out)@ + brightness_xml(crate::theme::opt_wide(b)));
                true
            } else if -100000 <= v && v < 0 {
                string_push_str(out, "<a:lumMod");
                push_nattr(out, "val", (100000 + v) as i64);
                string_push_str(out, "/>");
                assert(out@ =~= old(out)@ + brightness_xml(crate::theme::opt_wide(b)));
                true
            } else {
                assert(out@ =~= old(out)@ + brightness_xml(crate::theme::opt_wide(b)));
                false
            }
        },
        None => {
            assert(out@ =~= old(out)@ + brightness_xml(crate::theme::opt_wide(b)));
            false
        },
    }
}

/// Appends a colour element (see `color_xml`).
#[verifier::spinoff_prover]
#[verifier::rlimit(40)]
pub fn push_color(out: &mut String, c: &ColorFormat)
    ensures
        final(out)@ == old(out)@ + color_xml(c@),
{
    let ghost o = out@;
    proof {
        reveal_strlit("<a:srgbClr val=\""); reveal_strlit("\"/>"); reveal_strlit("<a:schemeClr");
        reveal_strlit("/>"); reveal_strlit(">"); reveal_strlit("</a:schemeClr>"); reveal_strlit("<a:sysClr");
        reveal_strlit("<a:hslClr"); reveal_strlit("<a:prstClr");
    }
    match c {
        ColorFormat::Rgb(x) => {
            string_push_str(out, "<a:srgbClr val=\"");
            push_hex2(out, x.r);
            push_hex2(out, x.g);
            push_hex2(out, x.b);
            string_push_str(out, "\"/>");
        },
        ColorFormat::Theme(t) => {
            let mut m = String::new();
            let wrote = push_brightness(&mut m, t.brightness);
            string_push_str(out, "<a:schemeClr");
            push_xattr(out, "val", t.theme_color.as_str());
            if wrote {
                string_push_str(out, ">");
                string_push_str(out, m.as_str());
                string_push_str(out, "</a:schemeClr>");
            } else {
                string_push_str(out, "/>");
            }
        },
        ColorFormat::System(s) => {
            string_push_str(out, "<a:sysClr");
            push_xattr(out, "val", s.val.as_str());
            push_opt_xattr(out, "lastClr", &s.last_color);
            string_push_str(out, "/>");
        },
        ColorFormat::Hsl(h) => {
            string_push_str(out, "<a:hslClr");
            push_nattr(out, "hue", h.hue);
            push_nattr(out, "sat", h.sat);
            push_nattr(out, "lum", h.lum);
            string_push_str(out, "/>");
        },
        ColorFormat::Preset(p) => {
            string_push_str(out, "<a:prstClr");
            push_xattr(out, "val", p.as_str());
            string_push_str(out, "/>");
        },
    }
    assert(out@ =~= o + color_xml(c@));
}

/// Appends a fill element (see `fill_xml`).
#[verifier::spinoff_prover]
#[verifier::rlimit(40)]
pub fn push_fill(out: &mut String, f: &FillFormat)
    ensures
        final(out)@ == old(out)@ + fill_xml(f@),
{
    let ghost o = out@;
    proof {
        reveal_strlit("<a:noFill/>"); reveal_strlit("<a:grpFill/>"); reveal_strlit("<a:solidFill>");
        reveal_strlit("</a:solidFill>"); reveal_strlit("<a:gradFill><a:gsLst>"); reveal_strlit("</a:gsLst>");
        reveal_strlit("<a:lin"); reveal_strlit(" scaled=\"0\"/>"); reveal_strlit("</a:gradFill>");
        reveal_strlit("<a:gs"); reveal_strlit(">"); reveal_strlit("</a:gs>");
    }
    match f {
        FillFormat::NoFill => string_push_str(out, "<a:noFill/>"),
        FillFormat::Background => string_push_str(out, "<a:grpFill/>"),
        FillFormat::Solid(c) => {
            string_push_str(out, "<a:solidFill>");
            push_color(out, c);
            string_push_str(out, "</a:solidFill>");
        },
        FillFormat::Gradient(g) => {
            string_push_str(out, "<a:gradFill><a:gsLst>");
            let ghost m = out@;
            let ghost sv = stops_view(g.stops@);
            let mut i: usize = 0;
            while i < g.stops.len()
                invariant
                    i <= g.stops.len(),
                    sv == stops_view(g.stops@),
                    out@ == m + stops_xml(sv.subrange(0, i as int)),
                decreases g.stops.len() - i,
            {
                let ghost sub = sv.subrange(0, i as int + 1);
                assert(sub.drop_last() =~= sv.subrange(0, i as int));
                assert(sub.last() == (g.stops@[i as int].position, g.stops@[i as int].color@));
                string_push_str(out, "<a:gs");
                push_nattr(out, "pos", g.stops[i].position);
                string_push_str(out, ">");
                push_color(out, &g.stops[i].color);
                string_push_str(out, "</a:gs>");
                assert(out@ =~= m + stops_xml(sub));
                i = i + 1;
            }
            assert(sv.subrange(0, g.stops.len() as int) =~= sv);
            string_push_str(out, "</a:gsLst>");
            match g.angle {
                Some(a) => {
                    string_push_str(out, "<a:lin");
                    push_nattr(out, "ang", a);
                    string_push_str(out, " scaled=\"0\"/>");
                },
                None => {},
            }
            string_push_str(out, "</a:gradFill>");
        },
    }
    assert(out@ =~= o + fill_xml(f@));
}

/// Appends an outline element (see `line_xml`).
#[verifier::spinoff_prover]
#[verifier::rlimit(40)]
pub fn push_line(out: &mut String, l: &LineFormat)
    ensures
        final(out)@ == old(out)@ + line_xml(l@),
{
    let ghost o = out@;
    proof {
        reveal_strlit("<a:ln"); reveal_strlit(">"); reveal_strlit("<a:solidFill>"); reveal_strlit("</a:solidFill>");
        reveal_strlit("<a:prstDash"); reveal_strlit("/>"); reveal_strlit("</a:ln>");
    }
    string_push_str(out, "<a:ln");
    match l.width {
        Some(w) => push_nattr(out, "w", w),
        None => {},
    }
    string_push_str(out, ">");
    let ghost m1 = out@;
    match &l.fill {
        Some(f) => push_fill(out, f),
        None => match &l.color {
            Some(c) => {
                string_push_str(out, "<a:solidFill>");
                push_color(out, c);
                string_push_str(out, "</a:solidFill>");
            },
            None => {},
        },
    }
    let ghost m2 = out@;
    match &l.dash_style {
        Some(d) => {
            string_push_str(out, "<a:prstDash");
            push_xattr(out, "val", d.as_str());
            string_push_str(out, "/>");
        },
        None => {},
    }
    string_push_str(out, "</a:ln>");
    assert(out@ =~= o + line_xml(l@));
}

impl FillFormat {
    /// The fill as XML (see `fill_xml`).
    pub fn to_xml_string(&self) -> (r: String)
        ensures
            r@ == fill_xml(self@),
    {
        let mut out = String::new();
        push_fill(&mut out, self);
        out
    }
}

impl LineFormat {
    /// The outline as XML (see `line_xml`).
    pub fn to_xml_string(&self) -> (r: String)
        ensures
            r@ == line_xml(self@),
    {
        let mut out = String::new();
        push_line(&mut out, self);
        out
    }
}

} // verus!
