//! Writing a text frame back to its `<p:txBody>` XML.
use vstd::prelude::*;
use crate::shapes::text_frame::{
    AutoSize, Font, FontView, FrameView, ParaView, Paragraph, Run, RunView, TextFrame,
};
use crate::text::{int_text, push_escaped, push_i64, string_push, string_push_str, xml_escape_spec};

verus! {

/// An attribute with a text value, escaped.
pub open spec fn xattr(key: Seq<char>, v: Seq<char>) -> Seq<char> {
    " "@ + key + "=\""@ + xml_escape_spec(v) + "\""@
}

/// An attribute with a number value.
pub open spec fn nattr(key: Seq<char>, v: int) -> Seq<char> {
    " "@ + key + "=\""@ + int_text(v) + "\""@
}

/// An optional text attribute.
pub open spec fn opt_xattr(key: Seq<char>, v: Option<Seq<char>>) -> Seq<char> {
    match v {
        Some(t) => xattr(key, t),
        None => Seq::empty(),
    }
}

/// An optional number attribute.
pub open spec fn opt_nattr(key: Seq<char>, v: Option<i64>) -> Seq<char> {
    match v {
        Some(t) => nattr(key, t as int),
        None => Seq::empty(),
    }
}

/// An optional on/off attribute, written `1` or `0`.
pub open spec fn flag_attr(key: Seq<char>, v: Option<bool>) -> Seq<char> {
    match v {
        Some(b) => xattr(key, if b { "1"@ } else { "0"@ }),
        None => Seq::empty(),
    }
}

/// The upper-case hex digit of a value below 16.
pub open spec fn hex_char(d: u8) -> char {
    if d == 0 { '0' } else if d == 1 { '1' } else if d == 2 { '2' } else if d == 3 { '3' }
    else if d == 4 { '4' } else if d == 5 { '5' } else if d == 6 { '6' } else if d == 7 { '7' }
    else if d == 8 { '8' } else if d == 9 { '9' } else if d == 10 { 'A' } else if d == 11 { 'B' }
    else if d == 12 { 'C' } else if d == 13 { 'D' } else if d == 14 { 'E' } else { 'F' }
}

/// A byte as two hex digits.
pub open spec fn hex2(b: u8) -> Seq<char> {
    seq![hex_char((b / 16) as u8), hex_char((b % 16) as u8)]
}

/// A colour as six hex digits.
pub open spec fn hex6(c: (u8, u8, u8)) -> Seq<char> {
    hex2(c.0) + hex2(c.1) + hex2(c.2)
}

proof fn lemma_hex_char_digit(d: u8)
    requires
        d < 16,
    ensures
        crate::theme::hex_digit(hex_char(d)) == Some(d),
{
}

/// A colour written as six hex digits reads back as the same colour: `hex_rgb` inverts
/// `hex6`, red, green and blue each in its own place.
pub proof fn lemma_hex6_reads_back(c: (u8, u8, u8))
    ensures
        crate::theme::hex_rgb(hex6(c)) == Some(c),
{
    lemma_hex_char_digit((c.0 / 16) as u8);
    lemma_hex_char_digit((c.0 % 16) as u8);
    lemma_hex_char_digit((c.1 / 16) as u8);
    lemma_hex_char_digit((c.1 % 16) as u8);
    lemma_hex_char_digit((c.2 / 16) as u8);
    lemma_hex_char_digit((c.2 % 16) as u8);
    let s = hex6(c);
    assert(s.len() == 6);
    assert(s[0] == hex_char((c.0 / 16) as u8) && s[1] == hex_char((c.0 % 16) as u8));
    assert(s[2] == hex_char((c.1 / 16) as u8) && s[3] == hex_char((c.1 % 16) as u8));
    assert(s[4] == hex_char((c.2 / 16) as u8) && s[5] == hex_char((c.2 % 16) as u8));
    assert(crate::theme::hex_byte(s, 0) == Some(c.0));
    assert(crate::theme::hex_byte(s, 2) == Some(c.1));
    assert(crate::theme::hex_byte(s, 4) == Some(c.2));
}

/// The attributes of a run-formatting tag.
pub open spec fn rpr_attrs(f: FontView) -> Seq<char> {
    opt_xattr("lang"@, f.language_id) + opt_nattr("sz"@, f.size) + flag_attr("b"@, f.bold)
        + flag_attr("i"@, f.italic) + opt_xattr("u"@, f.underline)
        + (match f.strikethrough {
            Some(b) => xattr("strike"@, if b { "sngStrike"@ } else { "noStrike"@ }),
            None => Seq::empty(),
        })
        + (if f.superscript == Some(true) {
            nattr("baseline"@, 30000)
        } else if f.subscript == Some(true) {
            nattr("baseline"@, -25000)
        } else {
            Seq::empty()
        })
}

/// The children of a run-formatting tag: the solid fill (RGB before theme colour), then the
/// Latin typeface.
pub open spec fn rpr_children(f: FontView) -> Seq<char> {
    (match f.color {
        Some(c) => "<a:solidFill><a:srgbClr val=\""@ + hex6(c) + "\"/></a:solidFill>"@,
        None => match f.theme_color {
            Some(t) => "<a:solidFill><a:schemeClr"@ + xattr("val"@, t) + "/></a:solidFill>"@,
            None => Seq::empty(),
        },
    }) + (match f.name {
        Some(t) => "<a:latin"@ + xattr("typeface"@, t) + "/>"@,
        None => Seq::empty(),
    })
}

/// A run-formatting tag named `tag` (`a:rPr`, `a:endParaRPr`).
pub open spec fn rpr_xml(tag: Seq<char>, f: FontView) -> Seq<char> {
    if f.color is None && f.theme_color is None && f.name is None {
        "<"@ + tag + rpr_attrs(f) + "/>"@
    } else {
        "<"@ + tag + rpr_attrs(f) + ">"@ + rpr_children(f) + "</"@ + tag + ">"@
    }
}

/// A run: a line break, or its formatting and escaped text.
pub open spec fn run_xml(r: RunView) -> Seq<char> {
    if r.is_line_break {
        "<a:br/>"@
    } else {
        "<a:r>"@ + rpr_xml("a:rPr"@, r.font) + "<a:t>"@ + xml_escape_spec(r.text) + "</a:t></a:r>"@
    }
}

/// Runs, in order.
pub open spec fn runs_xml(rs: Seq<RunView>) -> Seq<char>
    decreases rs.len(),
{
    if rs.len() == 0 { Seq::empty() } else { runs_xml(rs.drop_last()) + run_xml(rs.last()) }
}

/// The paragraph-properties tag, when any property is set.
pub open spec fn ppr_xml(p: ParaView) -> Seq<char> {
    if p.alignment is None && p.level == 0 && p.rtl is None {
        Seq::empty()
    } else {
        "<a:pPr"@ + opt_xattr("algn"@, p.alignment)
            + (if p.level == 0 { Seq::empty() } else { nattr("lvl"@, p.level as int) })
            + opt_xattr("rtl"@, p.rtl) + "/>"@
    }
}

/// A paragraph: its properties, its runs, and its default formatting as `endParaRPr`.
pub open spec fn para_xml(p: ParaView) -> Seq<char> {
    "<a:p>"@ + ppr_xml(p) + runs_xml(p.runs)
        + (match p.font { Some(f) => rpr_xml("a:endParaRPr"@, f), None => Seq::empty() })
        + "</a:p>"@
}

/// Paragraphs, in order.
pub open spec fn paras_xml(ps: Seq<ParaView>) -> Seq<char>
    decreases ps.len(),
{
    if ps.len() == 0 { Seq::empty() } else { paras_xml(ps.drop_last()) + para_xml(ps.last()) }
}

/// The attributes of the `bodyPr` tag: wrapping, insets, anchor and rotation.
pub open spec fn body_attrs(fr: FrameView) -> Seq<char> {
    xattr("wrap"@, if fr.word_wrap { "square"@ } else { "none"@ })
        + opt_nattr("lIns"@, fr.margin_left) + opt_nattr("tIns"@, fr.margin_top)
        + opt_nattr("rIns"@, fr.margin_right) + opt_nattr("bIns"@, fr.margin_bottom)
        + opt_xattr("anchor"@, fr.vertical_anchor) + opt_nattr("rot"@, fr.rotation)
}

/// The `bodyPr` tag: wrapping, insets, anchor and rotation, with the autofit as its child.
pub open spec fn body_pr_xml(fr: FrameView) -> Seq<char> {
    let attrs = body_attrs(fr);
    match fr.auto_size {
        AutoSize::NoAutofit => "<a:bodyPr"@ + attrs + "/>"@,
        AutoSize::ShapeToFitText => "<a:bodyPr"@ + attrs + "><a:spAutoFit/></a:bodyPr>"@,
        AutoSize::TextToFitShape => "<a:bodyPr"@ + attrs + "><a:normAutofit"@
            + opt_nattr("fontScale"@, fr.font_scale) + "/></a:bodyPr>"@,
    }
}

/// A text frame as a `<p:txBody>` element; a frame without paragraphs gets one empty one.
pub open spec fn frame_xml(fr: FrameView) -> Seq<char> {
    "<p:txBody>"@ + body_pr_xml(fr) + "<a:lstStyle/>"@
        + (if fr.paragraphs.len() == 0 { "<a:p/>"@ } else { paras_xml(fr.paragraphs) })
        + "</p:txBody>"@
}

fn hex_char_exec(d: u8) -> (c: char)
    ensures
        c == hex_char(d),
{
    if d == 0 { '0' } else if d == 1 { '1' } else if d == 2 { '2' } else if d == 3 { '3' }
    else if d == 4 { '4' } else if d == 5 { '5' } else if d == 6 { '6' } else if d == 7 { '7' }
    else if d == 8 { '8' } else if d == 9 { '9' } else if d == 10 { 'A' } else if d == 11 { 'B' }
    else if d == 12 { 'C' } else if d == 13 { 'D' } else if d == 14 { 'E' } else { 'F' }
}

pub(crate) fn push_hex2(out: &mut String, b: u8)
    ensures
        final(out)@ == old(out)@ + hex2(b),
{
    string_push(out, hex_char_exec(b / 16));
    string_push(out, hex_char_exec(b % 16));
}

pub(crate) fn push_xattr(out: &mut String, key: &str, v: &str)
    ensures
        final(out)@ == old(out)@ + xattr(key@, v@),
{
    string_push_str(out, " ");
    string_push_str(out, key);
    string_push_str(out, "=\"");
    push_escaped(out, v);
    string_push_str(out, "\"");
    proof { reveal_strlit(" "); reveal_strlit("=\""); reveal_strlit("\""); }
    assert(out@ =~= old(out)@ + xattr(key@, v@));
}

pub(crate) fn push_nattr(out: &mut String, key: &str, v: i64)
    ensures
        final(out)@ == old(out)@ + nattr(key@, v as int),
{
    string_push_str(out, " ");
    string_push_str(out, key);
    string_push_str(out, "=\"");
    push_i64(out, v);
    string_push_str(out, "\"");
    proof { reveal_strlit(" "); reveal_strlit("=\""); reveal_strlit("\""); }
    assert(out@ =~= old(out)@ + nattr(key@, v as int));
}

pub(crate) fn push_opt_xattr(out: &mut String, key: &str, v: &Option<String>)
    ensures
        final(out)@ == old(out)@ + opt_xattr(key@, crate::shapes::text_frame::opt_chars(*v)),
{
    match v {
        Some(t) => push_xattr(out, key, t.as_str()),
        None => { assert(out@ =~= old(out)@ + Seq::<char>::empty()); },
    }
}

fn push_opt_nattr(out: &mut String, key: &str, v: Option<i64>)
    ensures
        final(out)@ == old(out)@ + opt_nattr(key@, v),
{
    match v {
        Some(t) => push_nattr(out, key, t),
        None => { assert(out@ =~= old(out)@ + Seq::<char>::empty()); },
    }
}

fn push_flag_attr(out: &mut String, key: &str, v: Option<bool>)
    ensures
        final(out)@ == old(out)@ + flag_attr(key@, v),
{
    match v {
        Some(b) => push_xattr(out, key, if b { "1" } else { "0" }),
        None => { assert(out@ =~= old(out)@ + Seq::<char>::empty()); },
    }
}

#[verifier::spinoff_prover]
#[verifier::rlimit(40)]
fn push_rpr_attrs(out: &mut String, f: &Font)
    ensures
        final(out)@ == old(out)@ + rpr_attrs(f@),
{
    let ghost o = out@;
    push_opt_xattr(out, "lang", &f.language_id);
    push_opt_nattr(out, "sz", f.size);
    push_flag_attr(out, "b", f.bold);
    push_flag_attr(out, "i", f.italic);
    push_opt_xattr(out, "u", &f.underline);
    let ghost m = out@;
    match f.strikethrough {
        Some(b) => push_xattr(out, "strike", if b { "sngStrike" } else { "noStrike" }),
        None => {},
    }
    let ghost m2 = out@;
    if f.superscript == Some(true) {
        push_nattr(out, "baseline", 30000);
    } else if f.subscript == Some(true) {
        push_nattr(out, "baseline", -25000);
    }
    assert(out@ =~= o + rpr_attrs(f@));
}

#[verifier::spinoff_prover]
#[verifier::rlimit(40)]
fn push_rpr_children(out: &mut String, f: &Font)
    ensures
        final(out)@ == old(out)@ + rpr_children(f@),
{
    let ghost o = out@;
    proof {
        reveal_strlit("<a:solidFill><a:srgbClr val=\"");
        reveal_strlit("\"/></a:solidFill>");
        reveal_strlit("<a:solidFill><a:schemeClr");
        reveal_strlit("/></a:solidFill>");
        reveal_strlit("<a:latin");
        reveal_strlit("/>");
    }
    match &f.color {
        Some(c) => {
            string_push_str(out, "<a:solidFill><a:srgbClr val=\"");
            push_hex2(out, c.r);
            push_hex2(out, c.g);
            push_hex2(out, c.b);
            string_push_str(out, "\"/></a:solidFill>");
        },
        None => match &f.theme_color {
            Some(t) => {
                string_push_str(out, "<a:solidFill><a:schemeClr");
                push_xattr(out, "val", t.as_str());
                string_push_str(out, "/></a:solidFill>");
            },
            None => {},
        },
    }
    let ghost m = out@;
    match &f.name {
        Some(t) => {
            string_push_str(out, "<a:latin");
            push_xattr(out, "typeface", t.as_str());
            string_push_str(out, "/>");
        },
        None => {},
    }
    assert(out@ =~= o + rpr_children(f@));
}

#[verifier::spinoff_prover]
#[verifier::rlimit(40)]
fn push_rpr(out: &mut String, tag: &str, f: &Font)
    ensures
        final(out)@ == old(out)@ + rpr_xml(tag@, f@),
{
    let mut kids = String::new();
    push_rpr_children(&mut kids, f);
    assert(kids@ =~= rpr_children(f@));
    let ghost o = out@;
    proof { reveal_strlit("<"); reveal_strlit("/>"); reveal_strlit(">"); reveal_strlit("</"); }
    string_push_str(out, "<");
    string_push_str(out, tag);
    push_rpr_attrs(out, f);
    if f.color.is_none() && f.theme_color.is_none() && f.name.is_none() {
        string_push_str(out, "/>");
    } else {
        string_push_str(out, ">");
        string_push_str(out, kids.as_str());
        string_push_str(out, "</");
        string_push_str(out, tag);
        string_push_str(out, ">");
    }
    assert(out@ =~= o + rpr_xml(tag@, f@));
}

#[verifier::spinoff_prover]
#[verifier::rlimit(40)]
fn push_run(out: &mut String, r: &Run)
    ensures
        final(out)@ == old(out)@ + run_xml(r@),
{
    let ghost o = out@;
    proof { reveal_strlit("<a:br/>"); reveal_strlit("<a:r>"); reveal_strlit("a:rPr"); reveal_strlit("<a:t>"); reveal_strlit("</a:t></a:r>"); }
    if r.is_line_break {
        string_push_str(out, "<a:br/>");
    } else {
        string_push_str(out, "<a:r>");
        push_rpr(out, "a:rPr", &r.font);
        string_push_str(out, "<a:t>");
        push_escaped(out, r.text.as_str());
        string_push_str(out, "</a:t></a:r>");
    }
    assert(out@ =~= o + run_xml(r@));
}

#[verifier::spinoff_prover]
#[verifier::rlimit(40)]
fn push_ppr(out: &mut String, p: &Paragraph)
    ensures
        final(out)@ == old(out)@ + ppr_xml(p@),
{
    let ghost o = out@;
    proof { reveal_strlit("<a:pPr"); reveal_strlit("/>"); }
    if p.alignment.is_none() && p.level == 0 && p.rtl.is_none() {
        assert(out@ =~= o + ppr_xml(p@));
        return;
    }
    string_push_str(out, "<a:pPr");
    push_opt_xattr(out, "algn", &p.alignment);
    let ghost m = out@;
    if p.level != 0 {
        push_nattr(out, "lvl", p.level as i64);
    }
    assert(out@ =~= m + (if p@.level == 0 { Seq::<char>::empty() } else { nattr("lvl"@, p@.level as int) }));
    push_opt_xattr(out, "rtl", &p.rtl);
    string_push_str(out, "/>");
    assert(out@ =~= o + ppr_xml(p@));
}

#[verifier::spinoff_prover]
#[verifier::rlimit(40)]
fn push_para(out: &mut String, p: &Paragraph)
    ensures
        final(out)@ == old(out)@ + para_xml(p@),
{
    let ghost o = out@;
    proof { reveal_strlit("<a:p>"); reveal_strlit("</a:p>"); reveal_strlit("a:endParaRPr"); }
    string_push_str(out, "<a:p>");
    push_ppr(out, p);
    let ghost m = out@;
    let mut i: usize = 0;
    while i < p.runs.len()
        invariant
            i <= p.runs.len(),
            out@ == m + runs_xml(p@.runs.subrange(0, i as int)),
        decreases p.runs.len() - i,
    {
        let ghost sub = p@.runs.subrange(0, i as int + 1);
        assert(sub.drop_last() =~= p@.runs.subrange(0, i as int));
        assert(sub.last() == p.runs@[i as int]@);
        push_run(out, &p.runs[i]);
        assert(out@ =~= m + runs_xml(sub));
        i = i + 1;
    }
    assert(p@.runs.subrange(0, p.runs.len() as int) =~= p@.runs);
    let ghost m2 = out@;
    match &p.font {
        Some(f) => push_rpr(out, "a:endParaRPr", f),
        None => {},
    }
    string_push_str(out, "</a:p>");
    assert(out@ =~= o + para_xml(p@));
}

#[verifier::spinoff_prover]
#[verifier::rlimit(40)]
fn push_body_attrs(out: &mut String, fr: &TextFrame)
    ensures
        final(out)@ == old(out)@ + body_attrs(fr@),
{
    let ghost o = out@;
    push_xattr(out, "wrap", if fr.word_wrap { "square" } else { "none" });
    push_opt_nattr(out, "lIns", fr.margin_left);
    push_opt_nattr(out, "tIns", fr.margin_top);
    push_opt_nattr(out, "rIns", fr.margin_right);
    push_opt_nattr(out, "bIns", fr.margin_bottom);
    push_opt_xattr(out, "anchor", &fr.vertical_anchor);
    push_opt_nattr(out, "rot", fr.rotation);
    assert(out@ =~= o + body_attrs(fr@));
}

#[verifier::spinoff_prover]
#[verifier::rlimit(40)]
fn push_body_pr(out: &mut String, fr: &TextFrame)
    ensures
        final(out)@ == old(out)@ + body_pr_xml(fr@),
{
    let ghost o = out@;
    proof {
        reveal_strlit("<a:bodyPr"); reveal_strlit("/>"); reveal_strlit("><a:spAutoFit/></a:bodyPr>");
        reveal_strlit("><a:normAutofit"); reveal_strlit("/></a:bodyPr>");
    }
    string_push_str(out, "<a:bodyPr");
    push_body_attrs(out, fr);
    match fr.auto_size {
        AutoSize::NoAutofit => string_push_str(out, "/>"),
        AutoSize::ShapeToFitText => string_push_str(out, "><a:spAutoFit/></a:bodyPr>"),
        AutoSize::TextToFitShape => {
            string_push_str(out, "><a:normAutofit");
            push_opt_nattr(out, "fontScale", fr.font_scale);
            string_push_str(out, "/></a:bodyPr>");
        },
    }
    assert(out@ =~= o + body_pr_xml(fr@));
}

impl TextFrame {
    /// The frame as a `<p:txBody>` element (see `frame_xml`).
    pub fn to_xml_string(&self) -> (r: String)
        ensures
            r@ == frame_xml(self@),
    {
        let mut out = String::new();
        proof {
            reveal_strlit("<p:txBody>"); reveal_strlit("<a:lstStyle/>"); reveal_strlit("<a:p/>");
            reveal_strlit("</p:txBody>");
        }
        string_push_str(&mut out, "<p:txBody>");
        push_body_pr(&mut out, self);
        string_push_str(&mut out, "<a:lstStyle/>");
        let ghost m = out@;
        if self.paragraphs.len() == 0 {
            string_push_str(&mut out, "<a:p/>");
        } else {
            let mut i: usize = 0;
            while i < self.paragraphs.len()
                invariant
                    i <= self.paragraphs.len(),
                    out@ == m + paras_xml(self@.paragraphs.subrange(0, i as int)),
                decreases self.paragraphs.len() - i,
            {
                let ghost sub = self@.paragraphs.subrange(0, i as int + 1);
                assert(sub.drop_last() =~= self@.paragraphs.subrange(0, i as int));
                assert(sub.last() == self.paragraphs@[i as int]@);
                push_para(&mut out, &self.paragraphs[i]);
                assert(out@ =~= m + paras_xml(sub));
                i = i + 1;
            }
            assert(self@.paragraphs.subrange(0, self.paragraphs.len() as int) =~= self@.paragraphs);
        }
        string_push_str(&mut out, "</p:txBody>");
        assert(out@ =~= frame_xml(self@));
        out
    }
}

} // verus!
