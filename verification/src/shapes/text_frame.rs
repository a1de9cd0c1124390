//! The text of a shape: its text frame, paragraphs, runs and character formatting, and the
//! reader that builds them from a `<p:txBody>` fragment.
use vstd::prelude::*;
use crate::error::PptxError;
use crate::scan::{i64_text_value, parse_i64_text, parse_u32_text, u32_text_value};
use crate::shapes::parse::{attr_exec, attr_of};
use crate::text::{str_to_chars, string_push, string_push_str};
use crate::theme::{RGBColor, hex_rgb, parse_hex_rgb, rgb_of};
use crate::xml::{
    EventView, XmlEvent, bytes_are, bytes_equal_str, is_final, local_name, local_name_spec,
    next_event, reader_events, tag_local, tag_local_name, xml_events_untrimmed,
    xml_reader_untrimmed,
};

verus! {

/// Character formatting. Every field is `None` where the XML leaves it to inheritance.
#[derive(Debug, Clone)]
pub struct Font {
    /// The Latin typeface.
    pub name: Option<String>,
    /// The size in hundredths of a point (only a positive size is kept).
    pub size: Option<i64>,
    pub bold: Option<bool>,
    pub italic: Option<bool>,
    /// The underline token of the `u` attribute (`sng`, `dbl`, ...).
    pub underline: Option<String>,
    /// A solid RGB fill of the text.
    pub color: Option<RGBColor>,
    /// A solid theme-colour fill of the text: the scheme colour's token (`accent1`, `tx1`, ...).
    pub theme_color: Option<String>,
    pub strikethrough: Option<bool>,
    pub subscript: Option<bool>,
    pub superscript: Option<bool>,
    /// The language tag of the `lang` attribute.
    pub language_id: Option<String>,
}

/// One run of text with its formatting, or a line break.
#[derive(Debug, Clone)]
pub struct Run {
    pub text: String,
    pub font: Font,
    pub is_line_break: bool,
}

/// A paragraph: its runs and paragraph properties.
#[derive(Debug, Clone)]
pub struct Paragraph {
    pub runs: Vec<Run>,
    /// The alignment token of the `algn` attribute (`l`, `ctr`, `r`, `just`, ...).
    pub alignment: Option<String>,
    /// The outline level (0 to 8).
    pub level: u32,
    /// The `rtl` attribute as written.
    pub rtl: Option<String>,
    /// The paragraph's default run formatting (from `defRPr` or `endParaRPr`).
    pub font: Option<Font>,
}

/// How the text and its shape are fitted to each other.
#[derive(Clone, Copy, Debug, PartialEq, Eq, Structural)]
pub enum AutoSize {
    NoAutofit,
    ShapeToFitText,
    TextToFitShape,
}

/// A shape's text body.
#[derive(Debug, Clone)]
pub struct TextFrame {
    pub paragraphs: Vec<Paragraph>,
    pub word_wrap: bool,
    /// The anchor token of the `anchor` attribute (`t`, `ctr`, `b`).
    pub vertical_anchor: Option<String>,
    /// The insets in EMU.
    pub margin_left: Option<i64>,
    pub margin_top: Option<i64>,
    pub margin_right: Option<i64>,
    pub margin_bottom: Option<i64>,
    /// The text rotation in 60000ths of a degree.
    pub rotation: Option<i64>,
    pub auto_size: AutoSize,
    /// The font scale of `normAutofit`, in 1000ths of a percent.
    pub font_scale: Option<i64>,
}

/// The value of a [`Font`].
pub struct FontView {
    pub name: Option<Seq<char>>,
    pub size: Option<i64>,
    pub bold: Option<bool>,
    pub italic: Option<bool>,
    pub underline: Option<Seq<char>>,
    pub color: Option<(u8, u8, u8)>,
    pub theme_color: Option<Seq<char>>,
    pub strikethrough: Option<bool>,
    pub subscript: Option<bool>,
    pub superscript: Option<bool>,
    pub language_id: Option<Seq<char>>,
}

/// The value of a [`Run`].
pub struct RunView {
    pub text: Seq<char>,
    pub font: FontView,
    pub is_line_break: bool,
}

/// The value of a [`Paragraph`].
pub struct ParaView {
    pub runs: Seq<RunView>,
    pub alignment: Option<Seq<char>>,
    pub level: u32,
    pub rtl: Option<Seq<char>>,
    pub font: Option<FontView>,
}

/// The value of a [`TextFrame`].
pub struct FrameView {
    pub paragraphs: Seq<ParaView>,
    pub word_wrap: bool,
    pub vertical_anchor: Option<Seq<char>>,
    pub margin_left: Option<i64>,
    pub margin_top: Option<i64>,
    pub margin_right: Option<i64>,
    pub margin_bottom: Option<i64>,
    pub rotation: Option<i64>,
    pub auto_size: AutoSize,
    pub font_scale: Option<i64>,
}

pub open spec fn opt_chars(s: Option<String>) -> Option<Seq<char>> {
    match s {
        Some(t) => Some(t@),
        None => None,
    }
}

impl View for Font {
    type V = FontView;

    open spec fn view(&self) -> FontView {
        FontView {
            name: opt_chars(self.name),
            size: self.size,
            bold: self.bold,
            italic: self.italic,
            underline: opt_chars(self.underline),
            color: match self.color { Some(c) => Some(rgb_of(c)), None => None },
            theme_color: opt_chars(self.theme_color),
            strikethrough: self.strikethrough,
            subscript: self.subscript,
            superscript: self.superscript,
            language_id: opt_chars(self.language_id),
        }
    }
}

impl View for Run {
    type V = RunView;

    open spec fn view(&self) -> RunView {
        RunView { text: self.text@, font: self.font@, is_line_break: self.is_line_break }
    }
}

impl View for Paragraph {
    type V = ParaView;

    open spec fn view(&self) -> ParaView {
        ParaView {
            runs: self.runs@.map_values(|r: Run| r@),
            alignment: opt_chars(self.alignment),
            level: self.level,
            rtl: opt_chars(self.rtl),
            font: match self.font { Some(f) => Some(f@), None => None },
        }
    }
}

impl View for TextFrame {
    type V = FrameView;

    open spec fn view(&self) -> FrameView {
        FrameView {
            paragraphs: self.paragraphs@.map_values(|p: Paragraph| p@),
            word_wrap: self.word_wrap,
            vertical_anchor: opt_chars(self.vertical_anchor),
            margin_left: self.margin_left,
            margin_top: self.margin_top,
            margin_right: self.margin_right,
            margin_bottom: self.margin_bottom,
            rotation: self.rotation,
            auto_size: self.auto_size,
            font_scale: self.font_scale,
        }
    }
}

/// Formatting with nothing set.
pub open spec fn new_font() -> FontView {
    FontView {
        name: None, size: None, bold: None, italic: None, underline: None, color: None,
        theme_color: None, strikethrough: None, subscript: None, superscript: None,
        language_id: None,
    }
}

/// An empty run.
pub open spec fn new_run() -> RunView {
    RunView { text: Seq::empty(), font: new_font(), is_line_break: false }
}

/// A line break.
pub open spec fn line_break() -> RunView {
    RunView { text: Seq::empty(), font: new_font(), is_line_break: true }
}

/// An empty paragraph at level 0.
pub open spec fn new_para() -> ParaView {
    ParaView { runs: Seq::empty(), alignment: None, level: 0, rtl: None, font: None }
}

/// An empty text frame: no paragraphs, wrapping on, nothing else set.
pub open spec fn new_frame() -> FrameView {
    FrameView {
        paragraphs: Seq::empty(), word_wrap: true, vertical_anchor: None, margin_left: None,
        margin_top: None, margin_right: None, margin_bottom: None, rotation: None,
        auto_size: AutoSize::NoAutofit, font_scale: None,
    }
}

/// Whether any formatting is set.
pub open spec fn has_font_props(f: FontView) -> bool {
    f.name is Some || f.size is Some || f.bold is Some || f.italic is Some || f.underline is Some
        || f.color is Some || f.theme_color is Some || f.strikethrough is Some
        || f.subscript is Some || f.superscript is Some || f.language_id is Some
}

/// The text of a frame: its paragraphs' texts joined by line feeds.
pub open spec fn para_text(runs: Seq<RunView>) -> Seq<char>
    decreases runs.len(),
{
    if runs.len() == 0 {
        Seq::empty()
    } else {
        para_text(runs.drop_last()) + (if runs.last().is_line_break { seq!['\u{b}'] } else { runs.last().text })
    }
}

/// Why a text body could not be read.
#[derive(Clone, Copy, Debug, PartialEq, Eq, Structural)]
pub enum TextFail {
    /// An attribute that the reader refused.
    Attr,
    /// A number attribute that must be a number and is not.
    Number,
}

/// Whether a library error is the one that stands for a reading failure.
pub open spec fn text_fail_is(e: PptxError, f: TextFail) -> bool {
    match f {
        TextFail::Attr => e == PptxError::MalformedAttribute,
        TextFail::Number => e is InvalidXml,
    }
}

/// A `b` or `i` value: on when it is `1` or `true`.
pub open spec fn flag_on(t: Seq<char>) -> bool {
    t == "1"@ || t == "true"@
}

/// A flag attribute: its value when present, else the old one.
pub open spec fn flag_or(a: Option<Seq<char>>, old: Option<bool>) -> Option<bool> {
    match a {
        Some(t) => Some(flag_on(t)),
        None => old,
    }
}

/// A text attribute: its value when present, else the old one.
pub open spec fn text_or(a: Option<Seq<char>>, old: Option<Seq<char>>) -> Option<Seq<char>> {
    match a {
        Some(t) => Some(t),
        None => old,
    }
}

/// A size attribute: its value when it is a positive number, else the old one.
pub open spec fn size_or(a: Option<Seq<char>>, old: Option<i64>) -> Option<i64> {
    match a {
        Some(t) => match i64_text_value(t) {
            Some(v) => if v > 0 { Some(v) } else { old },
            None => old,
        },
        None => old,
    }
}

/// A number attribute: its value when it is a number, else the old one.
pub open spec fn num_or(a: Option<Seq<char>>, old: Option<i64>) -> Option<i64> {
    match a {
        Some(t) => match i64_text_value(t) {
            Some(v) => Some(v),
            None => old,
        },
        None => old,
    }
}

/// The `baseline` attribute: a positive number sets `superscript`, a negative one
/// `subscript`.
pub open spec fn script_or(a: Option<Seq<char>>, old: Option<bool>, above: bool) -> Option<bool> {
    match a {
        Some(t) => match i64_text_value(t) {
            Some(v) => if (above && v > 0) || (!above && v < 0) { Some(true) } else { old },
            None => old,
        },
        None => old,
    }
}

/// The run formatting of an `rPr`, `defRPr` or `endParaRPr` tag laid over `f`.
#[verifier::opaque]
pub open spec fn run_props(c: Seq<u8>, n: usize, f: FontView) -> Result<FontView, TextFail> {
    match (attr_of(c, n, "b"@), attr_of(c, n, "i"@), attr_of(c, n, "sz"@), attr_of(c, n, "u"@),
        attr_of(c, n, "strike"@), attr_of(c, n, "lang"@), attr_of(c, n, "baseline"@)) {
        (Ok(b), Ok(i), Ok(sz), Ok(u), Ok(st), Ok(l), Ok(bl)) => Ok(FontView {
            bold: flag_or(b, f.bold),
            italic: flag_or(i, f.italic),
            size: size_or(sz, f.size),
            underline: text_or(u, f.underline),
            strikethrough: match st { Some(t) => Some(t == "sngStrike"@), None => f.strikethrough },
            language_id: text_or(l, f.language_id),
            superscript: script_or(bl, f.superscript, true),
            subscript: script_or(bl, f.subscript, false),
            ..f
        }),
        _ => Err(TextFail::Attr),
    }
}

/// What a run-formatting tag sets: bold and italic from `b` and `i` (on for `1` or
/// `true`), the size from a positive `sz`, the underline from `u`, strikethrough from
/// `strike` (on for `sngStrike`), the language from `lang`, superscript from a positive and
/// subscript from a negative `baseline`; the typeface and colours stay.
pub proof fn lemma_run_props_attributes(c: Seq<u8>, n: usize, f: FontView)
    ensures
        run_props(c, n, f) matches Ok(g) ==> {
            &&& g.bold == (match attr_of(c, n, "b"@) { Ok(Some(t)) => Some(t == "1"@ || t == "true"@), _ => f.bold })
            &&& g.italic == (match attr_of(c, n, "i"@) { Ok(Some(t)) => Some(t == "1"@ || t == "true"@), _ => f.italic })
            &&& g.size == (match attr_of(c, n, "sz"@) {
                Ok(Some(t)) => match i64_text_value(t) { Some(v) => if v > 0 { Some(v) } else { f.size }, None => f.size },
                _ => f.size,
            })
            &&& g.underline == attr_text_or(c, n, "u"@, f.underline)
            &&& g.strikethrough == (match attr_of(c, n, "strike"@) { Ok(Some(t)) => Some(t == "sngStrike"@), _ => f.strikethrough })
            &&& g.language_id == attr_text_or(c, n, "lang"@, f.language_id)
            &&& g.superscript == (match attr_of(c, n, "baseline"@) {
                Ok(Some(t)) => match i64_text_value(t) { Some(v) => if v > 0 { Some(true) } else { f.superscript }, None => f.superscript },
                _ => f.superscript,
            })
            &&& g.subscript == (match attr_of(c, n, "baseline"@) {
                Ok(Some(t)) => match i64_text_value(t) { Some(v) => if v < 0 { Some(true) } else { f.subscript }, None => f.subscript },
                _ => f.subscript,
            })
            &&& g.name == f.name && g.color == f.color && g.theme_color == f.theme_color
        },
{
    reveal(run_props);
}

/// An inset attribute: absent, a number, or `Number` when it is not one.
pub open spec fn inset_of(c: Seq<u8>, n: usize, key: Seq<char>) -> Result<Option<i64>, TextFail> {
    match attr_of(c, n, key) {
        Ok(Some(t)) => match i64_text_value(t) {
            Some(v) => Ok(Some(v)),
            None => Err(TextFail::Number),
        },
        Ok(None) => Ok(None),
        Err(_) => Err(TextFail::Attr),
    }
}

/// An optional value: the new one when present, else the old one.
pub open spec fn or_old(a: Option<i64>, old: Option<i64>) -> Option<i64> {
    match a {
        Some(v) => Some(v),
        None => old,
    }
}

/// The four insets of a `bodyPr` tag, read in the order `lIns`, `tIns`, `rIns`, `bIns`:
/// the first failure counts.
pub open spec fn insets_of(c: Seq<u8>, n: usize) -> Result<(Option<i64>, Option<i64>, Option<i64>, Option<i64>), TextFail> {
    match (inset_of(c, n, "lIns"@), inset_of(c, n, "tIns"@), inset_of(c, n, "rIns"@), inset_of(c, n, "bIns"@)) {
        (Ok(l), Ok(t), Ok(r), Ok(b)) => Ok((l, t, r, b)),
        (Err(e), _, _, _) => Err(e),
        (_, Err(e), _, _) => Err(e),
        (_, _, Err(e), _) => Err(e),
        (_, _, _, Err(e)) => Err(e),
    }
}

/// The frame properties of a `bodyPr` tag laid over `fr`, read in the order `wrap`,
/// `anchor`, the insets, `rot`: the first failure counts.
#[verifier::opaque]
pub open spec fn body_props(c: Seq<u8>, n: usize, fr: FrameView) -> Result<FrameView, TextFail> {
    match (attr_of(c, n, "wrap"@), attr_of(c, n, "anchor"@), insets_of(c, n), attr_of(c, n, "rot"@)) {
        (Ok(w), Ok(a), Ok(ins), Ok(rot)) => Ok(FrameView {
            word_wrap: match w { Some(v) => v != "none"@, None => fr.word_wrap },
            vertical_anchor: text_or(a, fr.vertical_anchor),
            margin_left: or_old(ins.0, fr.margin_left),
            margin_top: or_old(ins.1, fr.margin_top),
            margin_right: or_old(ins.2, fr.margin_right),
            margin_bottom: or_old(ins.3, fr.margin_bottom),
            rotation: num_or(rot, fr.rotation),
            ..fr
        }),
        (Err(_), _, _, _) => Err(TextFail::Attr),
        (_, Err(_), _, _) => Err(TextFail::Attr),
        (_, _, Err(e), _) => Err(e),
        (_, _, _, Err(_)) => Err(TextFail::Attr),
    }
}

/// The `lvl` attribute: an unsigned number, else `Number`.
pub open spec fn level_of(l: Option<Seq<char>>, old: u32) -> Result<u32, TextFail> {
    match l {
        Some(t) => match u32_text_value(t) {
            Some(v) => Ok(v),
            None => Err(TextFail::Number),
        },
        None => Ok(old),
    }
}

/// A number attribute `key` laid over `old`: its value when present and a number, else `old`.
pub open spec fn attr_number_or(c: Seq<u8>, n: usize, key: Seq<char>, old: Option<i64>) -> Option<i64> {
    match attr_of(c, n, key) {
        Ok(Some(t)) => match i64_text_value(t) {
            Some(v) => Some(v),
            None => old,
        },
        _ => old,
    }
}

/// A text attribute `key` laid over `old`: its value when present, else `old`.
pub open spec fn attr_text_or(c: Seq<u8>, n: usize, key: Seq<char>, old: Option<Seq<char>>) -> Option<Seq<char>> {
    match attr_of(c, n, key) {
        Ok(Some(t)) => Some(t),
        _ => old,
    }
}

/// What a `bodyPr` tag sets, attribute by attribute: the left, top, right and bottom
/// insets are the numbers of `lIns`, `tIns`, `rIns` and `bIns`, the rotation that of
/// `rot`, wrapping is off exactly when `wrap` is `none`, the anchor is `anchor`; the
/// paragraphs and autofit stay. Reading fails with `Number` when an inset is present but
/// not a number.
pub proof fn lemma_body_props_attributes(c: Seq<u8>, n: usize, fr: FrameView)
    ensures
        body_props(c, n, fr) matches Ok(f) ==> {
            &&& f.margin_left == attr_number_or(c, n, "lIns"@, fr.margin_left)
            &&& f.margin_top == attr_number_or(c, n, "tIns"@, fr.margin_top)
            &&& f.margin_right == attr_number_or(c, n, "rIns"@, fr.margin_right)
            &&& f.margin_bottom == attr_number_or(c, n, "bIns"@, fr.margin_bottom)
            &&& f.rotation == attr_number_or(c, n, "rot"@, fr.rotation)
            &&& f.word_wrap == (match attr_of(c, n, "wrap"@) { Ok(Some(w)) => w != "none"@, _ => fr.word_wrap })
            &&& f.vertical_anchor == attr_text_or(c, n, "anchor"@, fr.vertical_anchor)
            &&& f.paragraphs == fr.paragraphs && f.auto_size == fr.auto_size && f.font_scale == fr.font_scale
        },
        (attr_of(c, n, "tIns"@) matches Ok(Some(t)) && i64_text_value(t) is None) ==> body_props(c, n, fr) is Err,
        (attr_of(c, n, "bIns"@) matches Ok(Some(t)) && i64_text_value(t) is None) ==> body_props(c, n, fr) is Err,
{
    reveal(body_props);
}

/// The paragraph properties of a `pPr` tag laid over `p`, read in the order `algn`, `lvl`
/// (which must be an unsigned number), `rtl`: the first failure counts.
#[verifier::opaque]
pub open spec fn para_props(c: Seq<u8>, n: usize, p: ParaView) -> Result<ParaView, TextFail> {
    match (attr_of(c, n, "algn"@), attr_of(c, n, "lvl"@)) {
        (Ok(a), Ok(l)) => match (level_of(l, p.level), attr_of(c, n, "rtl"@)) {
            (Ok(v), Ok(r)) => Ok(ParaView {
                alignment: text_or(a, p.alignment),
                level: v,
                rtl: text_or(r, p.rtl),
                ..p
            }),
            (Err(e), _) => Err(e),
            (_, Err(_)) => Err(TextFail::Attr),
        },
        _ => Err(TextFail::Attr),
    }
}

/// What a `pPr` tag sets: the alignment is `algn`, the level the number of `lvl`, the
/// direction `rtl`; the runs and default formatting stay.
pub proof fn lemma_para_props_attributes(c: Seq<u8>, n: usize, p: ParaView)
    ensures
        para_props(c, n, p) matches Ok(q) ==> {
            &&& q.alignment == attr_text_or(c, n, "algn"@, p.alignment)
            &&& q.rtl == attr_text_or(c, n, "rtl"@, p.rtl)
            &&& (match attr_of(c, n, "lvl"@) {
                Ok(Some(t)) => u32_text_value(t) == Some(q.level),
                _ => q.level == p.level,
            })
            &&& q.runs == p.runs && q.font == p.font
        },
{
    reveal(para_props);
}

/// A `normAutofit` tag: the text shrinks to fit, with its `fontScale` when that is a number.
#[verifier::opaque]
pub open spec fn norm_autofit(c: Seq<u8>, n: usize, fr: FrameView) -> Result<FrameView, TextFail> {
    match attr_of(c, n, "fontScale"@) {
        Err(_) => Err(TextFail::Attr),
        Ok(s) => Ok(FrameView {
            auto_size: AutoSize::TextToFitShape,
            font_scale: num_or(s, fr.font_scale),
            ..fr
        }),
    }
}

/// The state of reading a text body: the frame so far, where the reader stands, the
/// paragraph, run and formatting being read, and the depths of open `solidFill` elements
/// of run formatting (`rfill`) and of paragraph formatting (`pfill`).
pub struct TfRead {
    pub frame: FrameView,
    pub found: bool,
    pub in_body: bool,
    pub in_p: bool,
    pub in_r: bool,
    pub in_rpr: bool,
    pub in_ppr: bool,
    pub in_t: bool,
    pub in_end: bool,
    pub para: ParaView,
    pub run: RunView,
    pub font: FontView,
    pub pfont: FontView,
    pub rfill: Option<int>,
    pub pfill: Option<int>,
    pub depth: int,
}

/// Where reading starts.
pub open spec fn tf_start() -> TfRead {
    TfRead {
        frame: new_frame(), found: false, in_body: false, in_p: false, in_r: false,
        in_rpr: false, in_ppr: false, in_t: false, in_end: false, para: new_para(),
        run: new_run(), font: new_font(), pfont: new_font(), rfill: None, pfill: None, depth: 0,
    }
}

/// The element names that the text-body reader tells apart.
#[derive(Clone, Copy, Debug, PartialEq, Eq, Structural)]
pub enum TagKind {
    BodyPr,
    NormAutofit,
    SpAutoFit,
    P,
    PPr,
    DefRPr,
    R,
    RPr,
    EndParaRPr,
    SolidFill,
    T,
    SrgbClr,
    SchemeClr,
    Latin,
    Br,
    Other,
}

/// Which of the names the reader tells apart a local name is.
#[verifier::opaque]
pub open spec fn tag_kind(ln: Seq<u8>) -> TagKind {
    if bytes_are(ln, "bodyPr"@) { TagKind::BodyPr }
    else if bytes_are(ln, "normAutofit"@) { TagKind::NormAutofit }
    else if bytes_are(ln, "spAutoFit"@) { TagKind::SpAutoFit }
    else if bytes_are(ln, "p"@) { TagKind::P }
    else if bytes_are(ln, "pPr"@) { TagKind::PPr }
    else if bytes_are(ln, "defRPr"@) { TagKind::DefRPr }
    else if bytes_are(ln, "r"@) { TagKind::R }
    else if bytes_are(ln, "rPr"@) { TagKind::RPr }
    else if bytes_are(ln, "endParaRPr"@) { TagKind::EndParaRPr }
    else if bytes_are(ln, "solidFill"@) { TagKind::SolidFill }
    else if bytes_are(ln, "t"@) { TagKind::T }
    else if bytes_are(ln, "srgbClr"@) { TagKind::SrgbClr }
    else if bytes_are(ln, "schemeClr"@) { TagKind::SchemeClr }
    else if bytes_are(ln, "latin"@) { TagKind::Latin }
    else if bytes_are(ln, "br"@) { TagKind::Br }
    else { TagKind::Other }
}

/// The part of `tf_open` for the tags of kind `BodyPr`, `NormAutofit`, `SpAutoFit`.
#[verifier::opaque]
pub open spec fn tf_open_frame(st: TfRead, c: Seq<u8>, n: usize, k: TagKind) -> Result<TfRead, TextFail> {
    match k {
        TagKind::BodyPr => match body_props(c, n, st.frame) {
            Ok(f) => Ok(TfRead { found: true, in_body: true, frame: f, ..st }),
            Err(e) => Err(e),
        },
        TagKind::NormAutofit => if st.in_body {
            match norm_autofit(c, n, st.frame) {
                Ok(f) => Ok(TfRead { frame: f, ..st }),
                Err(e) => Err(e),
            }
        } else {
            Ok(st)
        },
        TagKind::SpAutoFit => if st.in_body {
            Ok(TfRead { frame: FrameView { auto_size: AutoSize::ShapeToFitText, ..st.frame }, ..st })
        } else {
            Ok(st)
        },
        _ => Ok(st),
    }
}

/// The part of `tf_open` for the tags of kind `P`, `PPr`, `DefRPr`, `EndParaRPr`.
#[verifier::opaque]
pub open spec fn tf_open_para(st: TfRead, c: Seq<u8>, n: usize, k: TagKind) -> Result<TfRead, TextFail> {
    match k {
        TagKind::P => if !st.in_body { Ok(TfRead { in_p: true, para: new_para(), ..st }) } else { Ok(st) },
        TagKind::PPr => if st.in_p {
            match para_props(c, n, st.para) {
                Ok(p) => Ok(TfRead { in_ppr: true, para: p, ..st }),
                Err(e) => Err(e),
            }
        } else {
            Ok(st)
        },
        TagKind::DefRPr => if st.in_ppr {
            match run_props(c, n, new_font()) {
                Ok(f) => Ok(TfRead { pfont: f, in_end: false, ..st }),
                Err(e) => Err(e),
            }
        } else {
            Ok(st)
        },
        TagKind::EndParaRPr => if st.in_p {
            match run_props(c, n, new_font()) {
                Ok(f) => Ok(TfRead { in_end: true, pfont: f, ..st }),
                Err(e) => Err(e),
            }
        } else {
            Ok(st)
        },
        _ => Ok(st),
    }
}

/// The part of `tf_open` for the tags of kind `R`, `RPr`, `SolidFill`, `T`.
#[verifier::opaque]
pub open spec fn tf_open_run(st: TfRead, c: Seq<u8>, n: usize, k: TagKind) -> Result<TfRead, TextFail> {
    match k {
        TagKind::R => if st.in_p { Ok(TfRead { in_r: true, run: new_run(), font: new_font(), ..st }) } else { Ok(st) },
        TagKind::RPr => if st.in_r {
            match run_props(c, n, st.font) {
                Ok(f) => Ok(TfRead { in_rpr: true, font: f, ..st }),
                Err(e) => Err(e),
            }
        } else {
            Ok(st)
        },
        TagKind::SolidFill => if st.in_rpr {
            Ok(TfRead { rfill: Some(st.depth), ..st })
        } else if st.in_end || st.in_ppr {
            Ok(TfRead { pfill: Some(st.depth), ..st })
        } else {
            Ok(st)
        },
        TagKind::T => if st.in_r { Ok(TfRead { in_t: true, ..st }) } else { Ok(st) },
        _ => Ok(st),
    }
}

/// A start tag: one level deeper, then what its local name and the state call for.
pub open spec fn tf_open(s0: TfRead, c: Seq<u8>, n: usize) -> Result<TfRead, TextFail> {
    let st = TfRead { depth: s0.depth + 1, ..s0 };
    let k = tag_kind(tag_local_name(c, n));
    if k is BodyPr || k is NormAutofit || k is SpAutoFit {
        tf_open_frame(st, c, n, k)
    } else if k is P || k is PPr || k is DefRPr || k is EndParaRPr {
        tf_open_para(st, c, n, k)
    } else {
        tf_open_run(st, c, n, k)
    }
}


/// The colour of an `srgbClr` tag's `val`, when it is six hex digits.
#[verifier::opaque]
pub open spec fn rgb_val(c: Seq<u8>, n: usize, old: Option<(u8, u8, u8)>) -> Result<Option<(u8, u8, u8)>, TextFail> {
    match attr_of(c, n, "val"@) {
        Err(_) => Err(TextFail::Attr),
        Ok(Some(t)) => match hex_rgb(t) {
            Some(rgb) => Ok(Some(rgb)),
            None => Ok(old),
        },
        Ok(None) => Ok(old),
    }
}

/// A text attribute `key` laid over `old`.
#[verifier::opaque]
pub open spec fn text_attr(c: Seq<u8>, n: usize, key: Seq<char>, old: Option<Seq<char>>) -> Result<Option<Seq<char>>, TextFail> {
    match attr_of(c, n, key) {
        Err(_) => Err(TextFail::Attr),
        Ok(a) => Ok(text_or(a, old)),
    }
}

/// The part of `tf_empty` for the tags of kind `BodyPr`, `NormAutofit`, `SpAutoFit`.
#[verifier::opaque]
pub open spec fn tf_empty_frame(st: TfRead, c: Seq<u8>, n: usize, k: TagKind) -> Result<TfRead, TextFail> {
    match k {
        TagKind::BodyPr => match body_props(c, n, st.frame) {
            Ok(f) => Ok(TfRead { found: true, frame: f, ..st }),
            Err(e) => Err(e),
        },
        TagKind::NormAutofit => if st.in_body {
            match norm_autofit(c, n, st.frame) {
                Ok(f) => Ok(TfRead { frame: f, ..st }),
                Err(e) => Err(e),
            }
        } else {
            Ok(st)
        },
        TagKind::SpAutoFit => if st.in_body {
            Ok(TfRead { frame: FrameView { auto_size: AutoSize::ShapeToFitText, ..st.frame }, ..st })
        } else {
            Ok(st)
        },
        _ => Ok(st),
    }
}

/// The part of `tf_empty` for the tags of kind `PPr`, `EndParaRPr`, `Br`, `Latin`.
#[verifier::opaque]
pub open spec fn tf_empty_para(st: TfRead, c: Seq<u8>, n: usize, k: TagKind) -> Result<TfRead, TextFail> {
    match k {
        TagKind::PPr => if st.in_p {
            match para_props(c, n, st.para) {
                Ok(p) => Ok(TfRead { para: p, ..st }),
                Err(e) => Err(e),
            }
        } else {
            Ok(st)
        },
        TagKind::EndParaRPr => if st.in_p {
            match run_props(c, n, new_font()) {
                Ok(f) => Ok(TfRead { pfont: f, ..st }),
                Err(e) => Err(e),
            }
        } else {
            Ok(st)
        },
        TagKind::Br => if st.in_p {
            Ok(TfRead { para: ParaView { runs: st.para.runs.push(line_break()), ..st.para }, ..st })
        } else {
            Ok(st)
        },
        TagKind::Latin => if st.in_rpr {
            match text_attr(c, n, "typeface"@, st.font.name) {
                Ok(v) => Ok(TfRead { font: FontView { name: v, ..st.font }, ..st }),
                Err(e) => Err(e),
            }
        } else if st.in_end || st.in_ppr {
            match text_attr(c, n, "typeface"@, st.pfont.name) {
                Ok(v) => Ok(TfRead { pfont: FontView { name: v, ..st.pfont }, ..st }),
                Err(e) => Err(e),
            }
        } else {
            Ok(st)
        },
        _ => Ok(st),
    }
}

/// The part of `tf_empty` for the tags of kind `RPr`, `SrgbClr`, `SchemeClr`.
#[verifier::opaque]
pub open spec fn tf_empty_run(st: TfRead, c: Seq<u8>, n: usize, k: TagKind) -> Result<TfRead, TextFail> {
    match k {
        TagKind::RPr => if st.in_r {
            match run_props(c, n, st.font) {
                Ok(f) => Ok(TfRead { font: f, ..st }),
                Err(e) => Err(e),
            }
        } else {
            Ok(st)
        },
        TagKind::SrgbClr => if st.rfill is Some {
            match rgb_val(c, n, st.font.color) {
                Ok(v) => Ok(TfRead { font: FontView { color: v, ..st.font }, ..st }),
                Err(e) => Err(e),
            }
        } else if st.pfill is Some {
            match rgb_val(c, n, st.pfont.color) {
                Ok(v) => Ok(TfRead { pfont: FontView { color: v, ..st.pfont }, ..st }),
                Err(e) => Err(e),
            }
        } else {
            Ok(st)
        },
        TagKind::SchemeClr => if st.rfill is Some {
            match text_attr(c, n, "val"@, st.font.theme_color) {
                Ok(v) => Ok(TfRead { font: FontView { theme_color: v, ..st.font }, ..st }),
                Err(e) => Err(e),
            }
        } else {
            Ok(st)
        },
        _ => Ok(st),
    }
}

/// An empty-element tag: what its local name and the state call for.
pub open spec fn tf_empty(st: TfRead, c: Seq<u8>, n: usize) -> Result<TfRead, TextFail> {
    let k = tag_kind(tag_local_name(c, n));
    if k is BodyPr || k is NormAutofit || k is SpAutoFit {
        tf_empty_frame(st, c, n, k)
    } else if k is PPr || k is EndParaRPr || k is Br || k is Latin {
        tf_empty_para(st, c, n, k)
    } else {
        tf_empty_run(st, c, n, k)
    }
}


/// What an end tag closes, before the depth goes down by one.
#[verifier::opaque]
pub open spec fn tf_close_at(st: TfRead, ln: Seq<u8>) -> TfRead {
    match tag_kind(ln) {
        TagKind::BodyPr => TfRead { in_body: false, ..st },
        TagKind::P => if st.in_p {
            let p = if has_font_props(st.pfont) { ParaView { font: Some(st.pfont), ..st.para } } else { st.para };
            TfRead {
                frame: FrameView { paragraphs: st.frame.paragraphs.push(p), ..st.frame },
                para: new_para(),
                pfont: new_font(),
                in_p: false,
                ..st
            }
        } else {
            st
        },
        TagKind::PPr => TfRead { in_ppr: false, ..st },
        TagKind::DefRPr => if st.in_ppr && has_font_props(st.pfont) {
            TfRead { para: ParaView { font: Some(st.pfont), ..st.para }, ..st }
        } else {
            st
        },
        TagKind::R => if st.in_r {
            let r = if has_font_props(st.font) { RunView { font: st.font, ..st.run } } else { st.run };
            TfRead {
                para: ParaView { runs: st.para.runs.push(r), ..st.para },
                run: new_run(),
                font: new_font(),
                in_r: false,
                in_rpr: false,
                ..st
            }
        } else {
            st
        },
        TagKind::RPr => TfRead { in_rpr: false, ..st },
        TagKind::EndParaRPr => TfRead { in_end: false, ..st },
        TagKind::SolidFill => TfRead {
            rfill: if st.rfill == Some(st.depth) { None } else { st.rfill },
            pfill: if st.pfill == Some(st.depth) { None } else { st.pfill },
            ..st
        },
        TagKind::T => TfRead { in_t: false, ..st },
        _ => st,
    }
}

/// An end tag: what it closes, then one level up (never below zero).
pub open spec fn tf_close(st: TfRead, name: Seq<u8>) -> TfRead {
    let s = tf_close_at(st, local_name_spec(name));
    TfRead { depth: if s.depth > 0 { s.depth - 1 } else { 0 }, ..s }
}

/// The character that one of XML's five predefined entities stands for.
pub open spec fn entity_char(name: Seq<u8>) -> Option<char> {
    if bytes_are(name, "amp"@) { Some('\u{26}') }
    else if bytes_are(name, "lt"@) { Some('\u{3c}') }
    else if bytes_are(name, "gt"@) { Some('\u{3e}') }
    else if bytes_are(name, "quot"@) { Some('\u{22}') }
    else if bytes_are(name, "apos"@) { Some('\u{27}') }
    else { None }
}

/// One event: tags as above; inside `<a:t>`, decoded text and predefined entities are added
/// to the run's text; anything else changes nothing.
pub open spec fn tf_step(st: TfRead, e: EventView) -> Result<TfRead, TextFail> {
    match e {
        EventView::Start(c, n) => tf_open(st, c, n),
        EventView::Empty(c, n) => tf_empty(st, c, n),
        EventView::End(name) => Ok(tf_close(st, name)),
        EventView::Text(Some(t)) => if st.in_t {
            Ok(TfRead { run: RunView { text: st.run.text + t, ..st.run }, ..st })
        } else {
            Ok(st)
        },
        EventView::Ref(name) => if st.in_t {
            match entity_char(name) {
                Some(ch) => Ok(TfRead { run: RunView { text: st.run.text.push(ch), ..st.run }, ..st }),
                None => Ok(st),
            }
        } else {
            Ok(st)
        },
        _ => Ok(st),
    }
}

/// Reading the events from position `i` on: the end of input or a reader error stops it.
pub open spec fn tf_from(ev: Seq<EventView>, i: int, st: TfRead) -> Result<TfRead, TextFail>
    decreases ev.len() - i,
{
    if i < 0 || i >= ev.len() || is_final(ev[i]) {
        Ok(st)
    } else {
        match tf_step(st, ev[i]) {
            Ok(s) => tf_from(ev, i + 1, s),
            Err(f) => Err(f),
        }
    }
}

/// The text frame that a `<p:txBody>` fragment describes, read with its text kept as it is:
/// `None` when it has neither a `bodyPr` nor a paragraph.
pub open spec fn text_frame_read(xml: Seq<u8>) -> Result<Option<FrameView>, TextFail> {
    match tf_from(xml_events_untrimmed(xml), 0, tf_start()) {
        Ok(st) => if !st.found && st.frame.paragraphs.len() == 0 { Ok(None) } else { Ok(Some(st.frame)) },
        Err(f) => Err(f),
    }
}


/// The text of a frame: its paragraphs' texts (a line break read as a vertical tab) joined
/// by line feeds.
pub open spec fn frame_text(ps: Seq<ParaView>) -> Seq<char>
    decreases ps.len(),
{
    if ps.len() == 0 {
        Seq::empty()
    } else if ps.len() == 1 {
        para_text(ps[0].runs)
    } else {
        frame_text(ps.drop_last()) + seq!['\n'] + para_text(ps.last().runs)
    }
}

pub open spec fn opt_rgb(c: Option<RGBColor>) -> Option<(u8, u8, u8)> {
    match c {
        Some(x) => Some(rgb_of(x)),
        None => None,
    }
}

impl Font {
    /// Formatting with nothing set.
    pub fn new() -> (r: Font)
        ensures
            r@ == new_font(),
    {
        Font {
            name: None, size: None, bold: None, italic: None, underline: None, color: None,
            theme_color: None, strikethrough: None, subscript: None, superscript: None,
            language_id: None,
        }
    }

    /// A copy of the formatting.
    pub fn copy(&self) -> (r: Font)
        ensures
            r@ == self@,
    {
        Font {
            name: match &self.name { Some(x) => Some(x.clone()), None => None },
            size: self.size,
            bold: self.bold,
            italic: self.italic,
            underline: match &self.underline { Some(x) => Some(x.clone()), None => None },
            color: match &self.color { Some(x) => Some(RGBColor { r: x.r, g: x.g, b: x.b }), None => None },
            theme_color: match &self.theme_color { Some(x) => Some(x.clone()), None => None },
            strikethrough: self.strikethrough,
            subscript: self.subscript,
            superscript: self.superscript,
            language_id: match &self.language_id { Some(x) => Some(x.clone()), None => None },
        }
    }

    /// Whether any formatting is set.
    pub fn has_properties(&self) -> (r: bool)
        ensures
            r == has_font_props(self@),
    {
        self.name.is_some() || self.size.is_some() || self.bold.is_some() || self.italic.is_some()
            || self.underline.is_some() || self.color.is_some() || self.theme_color.is_some()
            || self.strikethrough.is_some() || self.subscript.is_some() || self.superscript.is_some()
            || self.language_id.is_some()
    }
}

impl Run {
    /// An empty run with no formatting.
    pub fn new() -> (r: Run)
        ensures
            r@ == new_run(),
    {
        Run { text: String::new(), font: Font::new(), is_line_break: false }
    }
}

impl Paragraph {
    /// An empty paragraph at level 0.
    pub fn new() -> (r: Paragraph)
        ensures
            r@ == new_para(),
    {
        let runs: Vec<Run> = Vec::new();
        assert(runs@.map_values(|x: Run| x@) =~= Seq::<RunView>::empty());
        Paragraph { runs, alignment: None, level: 0, rtl: None, font: None }
    }

    /// The paragraph with `r` added as its last run.
    pub fn with_run(self, r: Run) -> (q: Paragraph)
        ensures
            q@ == (ParaView { runs: self@.runs.push(r@), ..self@ }),
    {
        let Paragraph { mut runs, alignment, level, rtl, font } = self;
        let ghost old = runs@;
        let ghost rv = r@;
        runs.push(r);
        assert(runs@.map_values(|x: Run| x@) =~= old.map_values(|x: Run| x@).push(rv));
        Paragraph { runs, alignment, level, rtl, font }
    }

    /// The paragraph's text: its runs' texts, a line break read as a vertical tab.
    pub fn text(&self) -> (r: String)
        ensures
            r@ == para_text(self@.runs),
    {
        let mut out = String::new();
        let mut i: usize = 0;
        while i < self.runs.len()
            invariant
                i <= self.runs.len(),
                out@ == para_text(self@.runs.subrange(0, i as int)),
            decreases self.runs.len() - i,
        {
            let ghost sub = self@.runs.subrange(0, i as int + 1);
            assert(sub.drop_last() =~= self@.runs.subrange(0, i as int));
            assert(sub.last() == self.runs@[i as int]@);
            if self.runs[i].is_line_break {
                string_push(&mut out, '\u{b}');
                assert(out@ =~= para_text(sub));
            } else {
                string_push_str(&mut out, self.runs[i].text.as_str());
                assert(out@ =~= para_text(sub));
            }
            i = i + 1;
        }
        assert(self@.runs.subrange(0, self.runs.len() as int) =~= self@.runs);
        out
    }
}

impl TextFrame {
    /// An empty text frame: no paragraphs, wrapping on, nothing else set.
    pub fn new() -> (r: TextFrame)
        ensures
            r@ == new_frame(),
    {
        let paragraphs: Vec<Paragraph> = Vec::new();
        assert(paragraphs@.map_values(|x: Paragraph| x@) =~= Seq::<ParaView>::empty());
        TextFrame {
            paragraphs, word_wrap: true, vertical_anchor: None, margin_left: None,
            margin_top: None, margin_right: None, margin_bottom: None, rotation: None,
            auto_size: AutoSize::NoAutofit, font_scale: None,
        }
    }

    /// The frame with `p` added as its last paragraph.
    pub fn with_paragraph(self, p: Paragraph) -> (q: TextFrame)
        ensures
            q@ == (FrameView { paragraphs: self@.paragraphs.push(p@), ..self@ }),
    {
        let TextFrame {
            mut paragraphs, word_wrap, vertical_anchor, margin_left, margin_top, margin_right,
            margin_bottom, rotation, auto_size, font_scale,
        } = self;
        let ghost old = paragraphs@;
        let ghost pv = p@;
        paragraphs.push(p);
        assert(paragraphs@.map_values(|x: Paragraph| x@) =~= old.map_values(|x: Paragraph| x@).push(pv));
        TextFrame {
            paragraphs, word_wrap, vertical_anchor, margin_left, margin_top, margin_right,
            margin_bottom, rotation, auto_size, font_scale,
        }
    }

    /// The frame's text: its paragraphs' texts joined by line feeds.
    pub fn text(&self) -> (r: String)
        ensures
            r@ == frame_text(self@.paragraphs),
    {
        let mut out = String::new();
        let mut i: usize = 0;
        while i < self.paragraphs.len()
            invariant
                i <= self.paragraphs.len(),
                out@ == frame_text(self@.paragraphs.subrange(0, i as int)),
            decreases self.paragraphs.len() - i,
        {
            let ghost sub = self@.paragraphs.subrange(0, i as int + 1);
            assert(sub.drop_last() =~= self@.paragraphs.subrange(0, i as int));
            assert(sub.last() == self.paragraphs@[i as int]@);
            let t = self.paragraphs[i].text();
            if i > 0 {
                string_push(&mut out, '\n');
            }
            string_push_str(&mut out, t.as_str());
            assert(out@ =~= frame_text(sub));
            i = i + 1;
        }
        assert(self@.paragraphs.subrange(0, self.paragraphs.len() as int) =~= self@.paragraphs);
        out
    }
}

/// Which of the names the reader tells apart a local name is (see `tag_kind`).
fn tag_kind_exec(ln: &[u8]) -> (r: TagKind)
    ensures
        r == tag_kind(ln@),
{
    proof { reveal(tag_kind); }
    if bytes_equal_str(ln, "bodyPr") { TagKind::BodyPr }
    else if bytes_equal_str(ln, "normAutofit") { TagKind::NormAutofit }
    else if bytes_equal_str(ln, "spAutoFit") { TagKind::SpAutoFit }
    else if bytes_equal_str(ln, "p") { TagKind::P }
    else if bytes_equal_str(ln, "pPr") { TagKind::PPr }
    else if bytes_equal_str(ln, "defRPr") { TagKind::DefRPr }
    else if bytes_equal_str(ln, "r") { TagKind::R }
    else if bytes_equal_str(ln, "rPr") { TagKind::RPr }
    else if bytes_equal_str(ln, "endParaRPr") { TagKind::EndParaRPr }
    else if bytes_equal_str(ln, "solidFill") { TagKind::SolidFill }
    else if bytes_equal_str(ln, "t") { TagKind::T }
    else if bytes_equal_str(ln, "srgbClr") { TagKind::SrgbClr }
    else if bytes_equal_str(ln, "schemeClr") { TagKind::SchemeClr }
    else if bytes_equal_str(ln, "latin") { TagKind::Latin }
    else if bytes_equal_str(ln, "br") { TagKind::Br }
    else { TagKind::Other }
}

/// Whether two strings hold the same characters.
fn same(a: &String, lit: &str) -> (r: bool)
    ensures
        r == (a@ == lit@),
{
    crate::enums::str_eq(a.as_str(), lit)
}

/// Attribute `key` of a tag (see `attr_of`), its refusal as `TextFail::Attr`.
fn attr_text(c: &Vec<u8>, n: usize, key: &str) -> (r: Result<Option<String>, TextFail>)
    ensures
        match attr_of(c@, n, key@) {
            Ok(a) => r matches Ok(x) && opt_chars(x) == a,
            Err(_) => r == Err::<Option<String>, TextFail>(TextFail::Attr),
        },
{
    match attr_exec(c, n, key) {
        Ok(x) => Ok(x),
        Err(_) => Err(TextFail::Attr),
    }
}

fn flag_exec(a: &Option<String>, old: Option<bool>) -> (r: Option<bool>)
    ensures
        r == flag_or(opt_chars(*a), old),
{
    match a {
        Some(t) => Some(same(t, "1") || same(t, "true")),
        None => old,
    }
}

fn text_exec(a: Option<String>, old: Option<String>) -> (r: Option<String>)
    ensures
        opt_chars(r) == text_or(opt_chars(a), opt_chars(old)),
{
    match a {
        Some(t) => Some(t),
        None => old,
    }
}

fn size_exec(a: &Option<String>, old: Option<i64>) -> (r: Option<i64>)
    ensures
        r == size_or(opt_chars(*a), old),
{
    match a {
        Some(t) => match parse_i64_text(t.as_str()) {
            Some(v) => if v > 0 { Some(v) } else { old },
            None => old,
        },
        None => old,
    }
}

fn num_exec(a: &Option<String>, old: Option<i64>) -> (r: Option<i64>)
    ensures
        r == num_or(opt_chars(*a), old),
{
    match a {
        Some(t) => match parse_i64_text(t.as_str()) {
            Some(v) => Some(v),
            None => old,
        },
        None => old,
    }
}

fn script_exec(a: &Option<String>, old: Option<bool>, above: bool) -> (r: Option<bool>)
    ensures
        r == script_or(opt_chars(*a), old, above),
{
    match a {
        Some(t) => match parse_i64_text(t.as_str()) {
            Some(v) => if (above && v > 0) || (!above && v < 0) { Some(true) } else { old },
            None => old,
        },
        None => old,
    }
}

/// The run formatting of a tag laid over `f` (see `run_props`).
fn run_props_exec(c: &Vec<u8>, n: usize, f: Font) -> (r: Result<Font, TextFail>)
    ensures
        match run_props(c@, n, f@) {
            Ok(v) => r matches Ok(x) && x@ == v,
            Err(e) => r == Err::<Font, TextFail>(e),
        },
{
    proof { reveal(run_props); }
    let b = match attr_text(c, n, "b") { Ok(x) => x, Err(e) => return Err(e) };
    let i = match attr_text(c, n, "i") { Ok(x) => x, Err(e) => return Err(e) };
    let sz = match attr_text(c, n, "sz") { Ok(x) => x, Err(e) => return Err(e) };
    let u = match attr_text(c, n, "u") { Ok(x) => x, Err(e) => return Err(e) };
    let st = match attr_text(c, n, "strike") { Ok(x) => x, Err(e) => return Err(e) };
    let l = match attr_text(c, n, "lang") { Ok(x) => x, Err(e) => return Err(e) };
    let bl = match attr_text(c, n, "baseline") { Ok(x) => x, Err(e) => return Err(e) };
    let Font {
        name, size, bold, italic, underline, color, theme_color, strikethrough, subscript,
        superscript, language_id,
    } = f;
    let strike = match &st {
        Some(t) => Some(same(t, "sngStrike")),
        None => strikethrough,
    };
    Ok(Font {
        name,
        size: size_exec(&sz, size),
        bold: flag_exec(&b, bold),
        italic: flag_exec(&i, italic),
        underline: text_exec(u, underline),
        color,
        theme_color,
        strikethrough: strike,
        subscript: script_exec(&bl, subscript, false),
        superscript: script_exec(&bl, superscript, true),
        language_id: text_exec(l, language_id),
    })
}

/// An inset attribute (see `inset_of`).
fn inset_exec(c: &Vec<u8>, n: usize, key: &str) -> (r: Result<Option<i64>, TextFail>)
    ensures
        r == inset_of(c@, n, key@),
{
    match attr_text(c, n, key) {
        Ok(Some(t)) => match parse_i64_text(t.as_str()) {
            Some(v) => Ok(Some(v)),
            None => Err(TextFail::Number),
        },
        Ok(None) => Ok(None),
        Err(e) => Err(e),
    }
}

fn or_old_exec(a: Option<i64>, old: Option<i64>) -> (r: Option<i64>)
    ensures
        r == or_old(a, old),
{
    match a {
        Some(v) => Some(v),
        None => old,
    }
}

/// The frame properties of a `bodyPr` tag laid over `fr` (see `body_props`).
fn body_props_exec(c: &Vec<u8>, n: usize, fr: TextFrame) -> (r: Result<TextFrame, TextFail>)
    ensures
        match body_props(c@, n, fr@) {
            Ok(v) => r matches Ok(x) && x@ == v,
            Err(e) => r == Err::<TextFrame, TextFail>(e),
        },
{
    proof { reveal(body_props); }
    let w = match attr_text(c, n, "wrap") { Ok(x) => x, Err(e) => return Err(e) };
    let a = match attr_text(c, n, "anchor") { Ok(x) => x, Err(e) => return Err(e) };
    let l = match inset_exec(c, n, "lIns") { Ok(x) => x, Err(e) => return Err(e) };
    let t = match inset_exec(c, n, "tIns") { Ok(x) => x, Err(e) => return Err(e) };
    let r = match inset_exec(c, n, "rIns") { Ok(x) => x, Err(e) => return Err(e) };
    let b = match inset_exec(c, n, "bIns") { Ok(x) => x, Err(e) => return Err(e) };
    let rot = match attr_text(c, n, "rot") { Ok(x) => x, Err(e) => return Err(e) };
    let TextFrame {
        paragraphs, word_wrap, vertical_anchor, margin_left, margin_top, margin_right,
        margin_bottom, rotation, auto_size, font_scale,
    } = fr;
    let wrap = match &w {
        Some(v) => !same(v, "none"),
        None => word_wrap,
    };
    Ok(TextFrame {
        paragraphs,
        word_wrap: wrap,
        vertical_anchor: text_exec(a, vertical_anchor),
        margin_left: or_old_exec(l, margin_left),
        margin_top: or_old_exec(t, margin_top),
        margin_right: or_old_exec(r, margin_right),
        margin_bottom: or_old_exec(b, margin_bottom),
        rotation: num_exec(&rot, rotation),
        auto_size,
        font_scale,
    })
}

/// The paragraph properties of a `pPr` tag laid over `p` (see `para_props`).
fn para_props_exec(c: &Vec<u8>, n: usize, p: Paragraph) -> (r: Result<Paragraph, TextFail>)
    ensures
        match para_props(c@, n, p@) {
            Ok(v) => r matches Ok(x) && x@ == v,
            Err(e) => r == Err::<Paragraph, TextFail>(e),
        },
{
    proof { reveal(para_props); }
    let a = match attr_text(c, n, "algn") { Ok(x) => x, Err(e) => return Err(e) };
    let l = match attr_text(c, n, "lvl") { Ok(x) => x, Err(e) => return Err(e) };
    let Paragraph { runs, alignment, level, rtl, font } = p;
    let lvl = match &l {
        Some(t) => match parse_u32_text(t.as_str()) {
            Some(v) => v,
            None => return Err(TextFail::Number),
        },
        None => level,
    };
    let r = match attr_text(c, n, "rtl") { Ok(x) => x, Err(e) => return Err(e) };
    Ok(Paragraph { runs, alignment: text_exec(a, alignment), level: lvl, rtl: text_exec(r, rtl), font })
}

/// A `normAutofit` tag (see `norm_autofit`).
fn norm_autofit_exec(c: &Vec<u8>, n: usize, fr: TextFrame) -> (r: Result<TextFrame, TextFail>)
    ensures
        match norm_autofit(c@, n, fr@) {
            Ok(v) => r matches Ok(x) && x@ == v,
            Err(e) => r == Err::<TextFrame, TextFail>(e),
        },
{
    proof { reveal(norm_autofit); }
    let s = match attr_text(c, n, "fontScale") { Ok(x) => x, Err(e) => return Err(e) };
    let scale = num_exec(&s, fr.font_scale);
    Ok(TextFrame { auto_size: AutoSize::TextToFitShape, font_scale: scale, ..fr })
}

/// The colour of an `srgbClr` tag (see `rgb_val`).
fn rgb_val_exec(c: &Vec<u8>, n: usize, old: Option<RGBColor>) -> (r: Result<Option<RGBColor>, TextFail>)
    ensures
        match rgb_val(c@, n, opt_rgb(old)) {
            Ok(v) => r matches Ok(x) && opt_rgb(x) == v,
            Err(e) => r == Err::<Option<RGBColor>, TextFail>(e),
        },
{
    proof { reveal(rgb_val); }
    match attr_text(c, n, "val") {
        Ok(Some(t)) => match parse_hex_rgb(t.as_str()) {
            Some(rgb) => Ok(Some(rgb)),
            None => Ok(old),
        },
        Ok(None) => Ok(old),
        Err(e) => Err(e),
    }
}

/// A text attribute laid over `old` (see `text_attr`).
fn text_attr_exec(c: &Vec<u8>, n: usize, key: &str, old: Option<String>) -> (r: Result<Option<String>, TextFail>)
    ensures
        match text_attr(c@, n, key@, opt_chars(old)) {
            Ok(v) => r matches Ok(x) && opt_chars(x) == v,
            Err(e) => r == Err::<Option<String>, TextFail>(e),
        },
{
    proof { reveal(text_attr); }
    match attr_text(c, n, key) {
        Ok(a) => Ok(text_exec(a, old)),
        Err(e) => Err(e),
    }
}

/// The character of a predefined entity (see `entity_char`).
fn entity_exec(name: &[u8]) -> (r: Option<char>)
    ensures
        r == entity_char(name@),
{
    if bytes_equal_str(name, "amp") { Some('\u{26}') }
    else if bytes_equal_str(name, "lt") { Some('\u{3c}') }
    else if bytes_equal_str(name, "gt") { Some('\u{3e}') }
    else if bytes_equal_str(name, "quot") { Some('\u{22}') }
    else if bytes_equal_str(name, "apos") { Some('\u{27}') }
    else { None }
}

pub open spec fn opt_int(d: Option<usize>) -> Option<int> {
    match d {
        Some(x) => Some(x as int),
        None => None,
    }
}

/// The reading state of `parse_text_frame`.
struct TfWalk {
    frame: TextFrame,
    found: bool,
    in_body: bool,
    in_p: bool,
    in_r: bool,
    in_rpr: bool,
    in_ppr: bool,
    in_t: bool,
    in_end: bool,
    para: Paragraph,
    run: Run,
    font: Font,
    pfont: Font,
    rfill: Option<usize>,
    pfill: Option<usize>,
    depth: usize,
}

impl View for TfWalk {
    type V = TfRead;

    closed spec fn view(&self) -> TfRead {
        TfRead {
            frame: self.frame@, found: self.found, in_body: self.in_body, in_p: self.in_p,
            in_r: self.in_r, in_rpr: self.in_rpr, in_ppr: self.in_ppr, in_t: self.in_t,
            in_end: self.in_end, para: self.para@, run: self.run@, font: self.font@,
            pfont: self.pfont@, rfill: opt_int(self.rfill), pfill: opt_int(self.pfill),
            depth: self.depth as int,
        }
    }
}


impl TfWalk {
    fn start() -> (r: TfWalk)
        ensures
            r@ == tf_start(),
    {
        TfWalk {
            frame: TextFrame::new(), found: false, in_body: false, in_p: false, in_r: false,
            in_rpr: false, in_ppr: false, in_t: false, in_end: false, para: Paragraph::new(),
            run: Run::new(), font: Font::new(), pfont: Font::new(), rfill: None, pfill: None,
            depth: 0,
        }
    }

    /// The part of `open` for the tags of kind `BodyPr`, `NormAutofit`, `SpAutoFit`.
    #[verifier::rlimit(40)]
    fn open_frame(self, c: &Vec<u8>, n: usize, k: TagKind) -> (r: Result<TfWalk, TextFail>)
        requires
            n <= c@.len(),
        ensures
            match tf_open_frame(self@, c@, n, k) {
                Ok(s) => r matches Ok(w) && w@ == s,
                Err(e) => r == Err::<TfWalk, TextFail>(e),
            },
            r matches Ok(w) ==> w@.depth == self@.depth,
    {
        proof { reveal(tf_open_frame); }
        let st = self;
        match k {
            TagKind::BodyPr => match body_props_exec(c, n, st.frame) {
                Ok(f) => Ok(TfWalk { found: true, in_body: true, frame: f, ..st }),
                Err(e) => Err(e),
            },
            TagKind::NormAutofit => if st.in_body {
                match norm_autofit_exec(c, n, st.frame) {
                    Ok(f) => Ok(TfWalk { frame: f, ..st }),
                    Err(e) => Err(e),
                }
            } else {
                Ok(st)
            },
            TagKind::SpAutoFit => if st.in_body {
                let f = TextFrame { auto_size: AutoSize::ShapeToFitText, ..st.frame };
                Ok(TfWalk { frame: f, ..st })
            } else {
                Ok(st)
            },
            _ => Ok(st),
        }
    }

    /// The part of `open` for the tags of kind `P`, `PPr`, `DefRPr`, `EndParaRPr`.
    #[verifier::rlimit(40)]
    fn open_para(self, c: &Vec<u8>, n: usize, k: TagKind) -> (r: Result<TfWalk, TextFail>)
        requires
            n <= c@.len(),
        ensures
            match tf_open_para(self@, c@, n, k) {
                Ok(s) => r matches Ok(w) && w@ == s,
                Err(e) => r == Err::<TfWalk, TextFail>(e),
            },
            r matches Ok(w) ==> w@.depth == self@.depth,
    {
        proof { reveal(tf_open_para); }
        let st = self;
        match k {
            TagKind::P => if !st.in_body { Ok(TfWalk { in_p: true, para: Paragraph::new(), ..st }) } else { Ok(st) },
            TagKind::PPr => if st.in_p {
                match para_props_exec(c, n, st.para) {
                    Ok(p) => Ok(TfWalk { in_ppr: true, para: p, ..st }),
                    Err(e) => Err(e),
                }
            } else {
                Ok(st)
            },
            TagKind::DefRPr => if st.in_ppr {
                match run_props_exec(c, n, Font::new()) {
                    Ok(f) => Ok(TfWalk { pfont: f, in_end: false, ..st }),
                    Err(e) => Err(e),
                }
            } else {
                Ok(st)
            },
            TagKind::EndParaRPr => if st.in_p {
                match run_props_exec(c, n, Font::new()) {
                    Ok(f) => Ok(TfWalk { in_end: true, pfont: f, ..st }),
                    Err(e) => Err(e),
                }
            } else {
                Ok(st)
            },
            _ => Ok(st),
        }
    }

    /// The part of `open` for the tags of kind `R`, `RPr`, `SolidFill`, `T`.
    #[verifier::rlimit(40)]
    fn open_run(self, c: &Vec<u8>, n: usize, k: TagKind) -> (r: Result<TfWalk, TextFail>)
        requires
            n <= c@.len(),
        ensures
            match tf_open_run(self@, c@, n, k) {
                Ok(s) => r matches Ok(w) && w@ == s,
                Err(e) => r == Err::<TfWalk, TextFail>(e),
            },
            r matches Ok(w) ==> w@.depth == self@.depth,
    {
        proof { reveal(tf_open_run); }
        let st = self;
        match k {
            TagKind::R => if st.in_p { Ok(TfWalk { in_r: true, run: Run::new(), font: Font::new(), ..st }) } else { Ok(st) },
            TagKind::RPr => if st.in_r {
                match run_props_exec(c, n, st.font) {
                    Ok(f) => Ok(TfWalk { in_rpr: true, font: f, ..st }),
                    Err(e) => Err(e),
                }
            } else {
                Ok(st)
            },
            TagKind::SolidFill => if st.in_rpr {
                Ok(TfWalk { rfill: Some(st.depth), ..st })
            } else if st.in_end || st.in_ppr {
                Ok(TfWalk { pfill: Some(st.depth), ..st })
            } else {
                Ok(st)
            },
            TagKind::T => if st.in_r { Ok(TfWalk { in_t: true, ..st }) } else { Ok(st) },
            _ => Ok(st),
        }
    }

    /// The part of `empty` for the tags of kind `BodyPr`, `NormAutofit`, `SpAutoFit`.
    #[verifier::rlimit(40)]
    fn empty_frame(self, c: &Vec<u8>, n: usize, k: TagKind) -> (r: Result<TfWalk, TextFail>)
        requires
            n <= c@.len(),
        ensures
            match tf_empty_frame(self@, c@, n, k) {
                Ok(s) => r matches Ok(w) && w@ == s,
                Err(e) => r == Err::<TfWalk, TextFail>(e),
            },
            r matches Ok(w) ==> w@.depth == self@.depth,
    {
        proof { reveal(tf_empty_frame); }
        let st = self;
        match k {
            TagKind::BodyPr => match body_props_exec(c, n, st.frame) {
                Ok(f) => Ok(TfWalk { found: true, frame: f, ..st }),
                Err(e) => Err(e),
            },
            TagKind::NormAutofit => if st.in_body {
                match norm_autofit_exec(c, n, st.frame) {
                    Ok(f) => Ok(TfWalk { frame: f, ..st }),
                    Err(e) => Err(e),
                }
            } else {
                Ok(st)
            },
            TagKind::SpAutoFit => if st.in_body {
                let f = TextFrame { auto_size: AutoSize::ShapeToFitText, ..st.frame };
                Ok(TfWalk { frame: f, ..st })
            } else {
                Ok(st)
            },
            _ => Ok(st),
        }
    }

    /// The part of `empty` for the tags of kind `PPr`, `EndParaRPr`, `Br`, `Latin`.
    #[verifier::rlimit(40)]
    fn empty_para(self, c: &Vec<u8>, n: usize, k: TagKind) -> (r: Result<TfWalk, TextFail>)
        requires
            n <= c@.len(),
        ensures
            match tf_empty_para(self@, c@, n, k) {
                Ok(s) => r matches Ok(w) && w@ == s,
                Err(e) => r == Err::<TfWalk, TextFail>(e),
            },
            r matches Ok(w) ==> w@.depth == self@.depth,
    {
        proof { reveal(tf_empty_para); }
        let st = self;
        match k {
            TagKind::PPr => if st.in_p {
                match para_props_exec(c, n, st.para) {
                    Ok(p) => Ok(TfWalk { para: p, ..st }),
                    Err(e) => Err(e),
                }
            } else {
                Ok(st)
            },
            TagKind::EndParaRPr => if st.in_p {
                match run_props_exec(c, n, Font::new()) {
                    Ok(f) => Ok(TfWalk { pfont: f, ..st }),
                    Err(e) => Err(e),
                }
            } else {
                Ok(st)
            },
            TagKind::Br => if st.in_p {
                let br = Run { text: String::new(), font: Font::new(), is_line_break: true };
                Ok(TfWalk { para: st.para.with_run(br), ..st })
            } else {
                Ok(st)
            },
            TagKind::Latin => if st.in_rpr {
                match text_attr_exec(c, n, "typeface", st.font.name) {
                    Ok(v) => Ok(TfWalk { font: Font { name: v, ..st.font }, ..st }),
                    Err(e) => Err(e),
                }
            } else if st.in_end || st.in_ppr {
                match text_attr_exec(c, n, "typeface", st.pfont.name) {
                    Ok(v) => Ok(TfWalk { pfont: Font { name: v, ..st.pfont }, ..st }),
                    Err(e) => Err(e),
                }
            } else {
                Ok(st)
            },
            _ => Ok(st),
        }
    }

    /// The part of `empty` for the tags of kind `RPr`, `SrgbClr`, `SchemeClr`.
    #[verifier::rlimit(40)]
    fn empty_run(self, c: &Vec<u8>, n: usize, k: TagKind) -> (r: Result<TfWalk, TextFail>)
        requires
            n <= c@.len(),
        ensures
            match tf_empty_run(self@, c@, n, k) {
                Ok(s) => r matches Ok(w) && w@ == s,
                Err(e) => r == Err::<TfWalk, TextFail>(e),
            },
            r matches Ok(w) ==> w@.depth == self@.depth,
    {
        proof { reveal(tf_empty_run); }
        let st = self;
        match k {
            TagKind::RPr => if st.in_r {
                match run_props_exec(c, n, st.font) {
                    Ok(f) => Ok(TfWalk { font: f, ..st }),
                    Err(e) => Err(e),
                }
            } else {
                Ok(st)
            },
            TagKind::SrgbClr => if st.rfill.is_some() {
                match rgb_val_exec(c, n, st.font.color) {
                    Ok(v) => Ok(TfWalk { font: Font { color: v, ..st.font }, ..st }),
                    Err(e) => Err(e),
                }
            } else if st.pfill.is_some() {
                match rgb_val_exec(c, n, st.pfont.color) {
                    Ok(v) => Ok(TfWalk { pfont: Font { color: v, ..st.pfont }, ..st }),
                    Err(e) => Err(e),
                }
            } else {
                Ok(st)
            },
            TagKind::SchemeClr => if st.rfill.is_some() {
                match text_attr_exec(c, n, "val", st.font.theme_color) {
                    Ok(v) => Ok(TfWalk { font: Font { theme_color: v, ..st.font }, ..st }),
                    Err(e) => Err(e),
                }
            } else {
                Ok(st)
            },
            _ => Ok(st),
        }
    }

    /// A start tag (see `tf_open`).
    fn open(self, c: &Vec<u8>, n: usize) -> (r: Result<TfWalk, TextFail>)
        requires
            n <= c@.len(),
            self.depth < usize::MAX,
        ensures
            match tf_open(self@, c@, n) {
                Ok(s) => r matches Ok(w) && w@ == s,
                Err(e) => r == Err::<TfWalk, TextFail>(e),
            },
            r matches Ok(w) ==> w@.depth == self@.depth + 1,
    {
        let d = self.depth + 1;
        let st = TfWalk { depth: d, ..self };
        let ln = tag_local(c.as_slice(), n);
        let k = tag_kind_exec(ln.as_slice());
        if k == TagKind::BodyPr || k == TagKind::NormAutofit || k == TagKind::SpAutoFit {
            st.open_frame(c, n, k)
        } else if k == TagKind::P || k == TagKind::PPr || k == TagKind::DefRPr || k == TagKind::EndParaRPr {
            st.open_para(c, n, k)
        } else {
            st.open_run(c, n, k)
        }
    }

    /// An empty-element tag (see `tf_empty`).
    fn empty(self, c: &Vec<u8>, n: usize) -> (r: Result<TfWalk, TextFail>)
        requires
            n <= c@.len(),
        ensures
            match tf_empty(self@, c@, n) {
                Ok(s) => r matches Ok(w) && w@ == s,
                Err(e) => r == Err::<TfWalk, TextFail>(e),
            },
            r matches Ok(w) ==> w@.depth == self@.depth,
    {
        let st = self;
        let ln = tag_local(c.as_slice(), n);
        let k = tag_kind_exec(ln.as_slice());
        if k == TagKind::BodyPr || k == TagKind::NormAutofit || k == TagKind::SpAutoFit {
            st.empty_frame(c, n, k)
        } else if k == TagKind::PPr || k == TagKind::EndParaRPr || k == TagKind::Br || k == TagKind::Latin {
            st.empty_para(c, n, k)
        } else {
            st.empty_run(c, n, k)
        }
    }

    /// What an end tag with local name `ln` closes (see `tf_close_at`).
    #[verifier::spinoff_prover]
    #[verifier::rlimit(60)]
    fn close_at(self, ln: &Vec<u8>) -> (r: TfWalk)
        ensures
            r@ == tf_close_at(self@, ln@),
            r@.depth == self@.depth,
    {
        proof { reveal(tf_close_at); }
        let st = self;
        match tag_kind_exec(ln.as_slice()) {
            TagKind::BodyPr => TfWalk { in_body: false, ..st },
            TagKind::P => if st.in_p {
                let has = st.pfont.has_properties();
                let TfWalk {
                    frame, found, in_body, in_p: _, in_r, in_rpr, in_ppr, in_t, in_end, para, run,
                    font, pfont, rfill, pfill, depth,
                } = st;
                let p = if has { Paragraph { font: Some(pfont), ..para } } else { para };
                TfWalk {
                    frame: frame.with_paragraph(p), found, in_body, in_p: false, in_r, in_rpr,
                    in_ppr, in_t, in_end, para: Paragraph::new(), run, font,
                    pfont: Font::new(), rfill, pfill, depth,
                }
            } else {
                st
            },
            TagKind::PPr => TfWalk { in_ppr: false, ..st },
            TagKind::DefRPr => if st.in_ppr && st.pfont.has_properties() {
                let copy = st.pfont.copy();
                TfWalk { para: Paragraph { font: Some(copy), ..st.para }, ..st }
            } else {
                st
            },
            TagKind::R => if st.in_r {
                let has = st.font.has_properties();
                let TfWalk {
                    frame, found, in_body, in_p, in_r: _, in_rpr: _, in_ppr, in_t, in_end, para, run,
                    font, pfont, rfill, pfill, depth,
                } = st;
                let r = if has { Run { font, ..run } } else { run };
                TfWalk {
                    frame, found, in_body, in_p, in_r: false, in_rpr: false, in_ppr, in_t, in_end,
                    para: para.with_run(r), run: Run::new(), font: Font::new(), pfont, rfill,
                    pfill, depth,
                }
            } else {
                st
            },
            TagKind::RPr => TfWalk { in_rpr: false, ..st },
            TagKind::EndParaRPr => TfWalk { in_end: false, ..st },
            TagKind::SolidFill => {
                let rf = if st.rfill == Some(st.depth) { None } else { st.rfill };
                let pf = if st.pfill == Some(st.depth) { None } else { st.pfill };
                TfWalk { rfill: rf, pfill: pf, ..st }
            },
            TagKind::T => TfWalk { in_t: false, ..st },
            _ => st,
        }
    }

    /// An end tag (see `tf_close`).
    fn close(self, name: &Vec<u8>) -> (r: TfWalk)
        ensures
            r@ == tf_close(self@, name@),
            r@.depth <= self@.depth,
    {
        let ln = local_name(name.as_slice());
        let s = self.close_at(&ln);
        let d = if s.depth > 0 { s.depth - 1 } else { 0 };
        TfWalk { depth: d, ..s }
    }

    /// Decoded text (see `tf_step`).
    fn text(self, t: &String) -> (r: TfWalk)
        ensures
            r@ == (if self@.in_t { TfRead { run: RunView { text: self@.run.text + t@, ..self@.run }, ..self@ } } else { self@ }),
    {
        if self.in_t {
            let TfWalk {
                frame, found, in_body, in_p, in_r, in_rpr, in_ppr, in_t, in_end, para, run,
                font, pfont, rfill, pfill, depth,
            } = self;
            let Run { mut text, font: rf, is_line_break } = run;
            string_push_str(&mut text, t.as_str());
            TfWalk {
                frame, found, in_body, in_p, in_r, in_rpr, in_ppr, in_t, in_end, para,
                run: Run { text, font: rf, is_line_break }, font, pfont, rfill, pfill, depth,
            }
        } else {
            self
        }
    }

    /// A character or entity reference (see `tf_step`).
    fn reference(self, name: &Vec<u8>) -> (r: TfWalk)
        ensures
            r@ == (if self@.in_t {
                match entity_char(name@) {
                    Some(ch) => TfRead { run: RunView { text: self@.run.text.push(ch), ..self@.run }, ..self@ },
                    None => self@,
                }
            } else {
                self@
            }),
    {
        if self.in_t {
            match entity_exec(name.as_slice()) {
                Some(ch) => {
                    let TfWalk {
                        frame, found, in_body, in_p, in_r, in_rpr, in_ppr, in_t, in_end, para,
                        run, font, pfont, rfill, pfill, depth,
                    } = self;
                    let Run { mut text, font: rf, is_line_break } = run;
                    string_push(&mut text, ch);
                    TfWalk {
                        frame, found, in_body, in_p, in_r, in_rpr, in_ppr, in_t, in_end, para,
                        run: Run { text, font: rf, is_line_break }, font, pfont, rfill, pfill,
                        depth,
                    }
                },
                None => self,
            }
        } else {
            self
        }
    }
}

/// The library error for a reading failure.
fn text_fail_error(f: TextFail) -> (e: PptxError)
    ensures
        text_fail_is(e, f),
{
    match f {
        TextFail::Attr => PptxError::MalformedAttribute,
        TextFail::Number => PptxError::InvalidXml("invalid numeric value in a text body".to_owned()),
    }
}

/// Reads the text frame of a `<p:txBody>` fragment (see `text_frame_read`): `Ok(None)`
/// when it has neither a `bodyPr` nor a paragraph; `PptxError::MalformedAttribute` when
/// the reader refuses an attribute, `PptxError::InvalidXml` when an inset or a level is not
/// a number. Reading stops at the end of input or at the first reader error.
#[verifier::rlimit(40)]
pub fn parse_text_frame(tx_body: &[u8]) -> (r: Result<Option<TextFrame>, PptxError>)
    ensures
        match text_frame_read(tx_body@) {
            Ok(Some(f)) => r matches Ok(Some(x)) && x@ == f,
            Ok(None) => r matches Ok(None),
            Err(f) => r matches Err(e) && text_fail_is(e, f),
        },
{
    let n = tx_body.len();
    let mut reader = xml_reader_untrimmed(tx_body);
    let ghost ev = xml_events_untrimmed(tx_body@);
    let ghost mut i: int = 0;
    let mut w = TfWalk::start();
    loop
        invariant
            ev == xml_events_untrimmed(tx_body@),
            0 < ev.len() <= n + 1,
            is_final(ev.last()),
            forall|k: int| 0 <= k < ev.len() - 1 ==> !is_final(#[trigger] ev[k]),
            0 <= i < ev.len(),
            w@.depth <= i,
            reader_events(reader) == ev.subrange(i, ev.len() as int),
            tf_from(ev, 0, tf_start()) == tf_from(ev, i, w@),
        decreases ev.len() - i,
    {
        let e = next_event(&mut reader);
        proof {
            if i < ev.len() - 1 {
                assert(ev.subrange(i, ev.len() as int).drop_first() == ev.subrange(i + 1, ev.len() as int));
            }
        }
        assert(e@ == ev[i]);
        match e {
            XmlEvent::Eof | XmlEvent::Error => {
                assert(tf_from(ev, i, w@) == Ok::<TfRead, TextFail>(w@));
                if !w.found && w.frame.paragraphs.len() == 0 {
                    return Ok(None);
                } else {
                    return Ok(Some(w.frame));
                }
            },
            XmlEvent::Start(c, k) => {
                assert(i < ev.len() - 1) by {
                    if i == ev.len() - 1 {
                        assert(ev.last() == ev[i]);
                    }
                }
                w = match w.open(&c, k) {
                    Ok(x) => x,
                    Err(f) => return Err(text_fail_error(f)),
                };
            },
            XmlEvent::Empty(c, k) => {
                w = match w.empty(&c, k) {
                    Ok(x) => x,
                    Err(f) => return Err(text_fail_error(f)),
                };
            },
            XmlEvent::End(name) => {
                w = w.close(&name);
            },
            XmlEvent::Text(t) => {
                match t {
                    Some(s) => { w = w.text(&s); },
                    None => {},
                }
            },
            XmlEvent::Ref(name) => {
                w = w.reference(&name);
            },
            XmlEvent::Other => {},
        }
        assert(i < ev.len() - 1) by {
            if i == ev.len() - 1 {
                assert(ev.last() == ev[i]);
            }
        }
        proof { i = i + 1; }
    }
}


/// The lines of a text: the pieces between line feeds, in order (one empty line for an
/// empty text).
pub open spec fn split_lines(t: Seq<char>) -> Seq<Seq<char>>
    decreases t.len(),
{
    if t.len() == 0 {
        seq![Seq::<char>::empty()]
    } else {
        let prev = split_lines(t.drop_last());
        if t.last() == '\n' {
            prev.push(Seq::<char>::empty())
        } else {
            prev.update(prev.len() - 1, prev.last().push(t.last()))
        }
    }
}

/// Every text has at least one line.
pub proof fn lemma_split_lines_len(t: Seq<char>)
    ensures
        split_lines(t).len() >= 1,
    decreases t.len(),
{
    if t.len() > 0 {
        lemma_split_lines_len(t.drop_last());
    }
}

/// A paragraph of one unformatted run holding `line`.
pub open spec fn text_para(line: Seq<char>) -> ParaView {
    ParaView {
        runs: seq![RunView { text: line, font: new_font(), is_line_break: false }],
        ..new_para()
    }
}

/// The paragraphs that `set_text` makes of a text: one per line.
pub open spec fn text_paras(t: Seq<char>) -> Seq<ParaView> {
    split_lines(t).map_values(|l: Seq<char>| text_para(l))
}

proof fn lemma_text_para_text(l: Seq<char>)
    ensures
        para_text(text_para(l).runs) == l,
{
    let rs = text_para(l).runs;
    assert(rs.drop_last() =~= Seq::<RunView>::empty());
    assert(para_text(rs.drop_last()) == Seq::<char>::empty());
    assert(para_text(rs) =~= l);
}

/// The text of a frame whose text was set is the text that was set: `set_text` and `text`
/// undo each other.
pub proof fn lemma_set_text_reads_back(t: Seq<char>)
    ensures
        frame_text(text_paras(t)) == t,
    decreases t.len(),
{
    if t.len() == 0 {
        assert(split_lines(t) =~= seq![Seq::<char>::empty()]);
        assert(text_paras(t) =~= seq![text_para(Seq::<char>::empty())]);
        lemma_text_para_text(Seq::<char>::empty());
        assert(frame_text(text_paras(t)) =~= t);
    } else {
        let t0 = t.drop_last();
        let c = t.last();
        lemma_set_text_reads_back(t0);
        lemma_split_lines_len(t0);
        let prev = split_lines(t0);
        let ps0 = text_paras(t0);
        assert(t =~= t0.push(c));
        if c == '\n' {
            assert(split_lines(t) == prev.push(Seq::<char>::empty()));
            let ps = text_paras(t);
            assert(ps =~= ps0.push(text_para(Seq::<char>::empty())));
            assert(ps.drop_last() =~= ps0);
            lemma_text_para_text(Seq::<char>::empty());
            assert(frame_text(ps) =~= t);
        } else {
            let nl = prev.last().push(c);
            assert(split_lines(t) == prev.update(prev.len() - 1, nl));
            let ps = text_paras(t);
            assert(ps =~= ps0.update(ps0.len() - 1, text_para(nl)));
            lemma_text_para_text(nl);
            lemma_text_para_text(prev.last());
            if ps0.len() == 1 {
                assert(frame_text(ps0) == para_text(ps0[0].runs));
                assert(frame_text(ps) =~= t);
            } else {
                assert(ps.drop_last() =~= ps0.drop_last());
                assert(frame_text(ps0) == frame_text(ps0.drop_last()) + seq!['\n'] + para_text(ps0.last().runs));
                assert(frame_text(ps) =~= t);
            }
        }
    }
}

fn text_paragraph(s: String) -> (p: Paragraph)
    ensures
        p@ == text_para(s@),
{
    let p = Paragraph::new();
    let q = p.with_run(Run { text: s, font: Font::new(), is_line_break: false });
    assert(q@.runs =~= seq![RunView { text: s@, font: new_font(), is_line_break: false }]);
    q
}

impl TextFrame {
    /// Replaces the frame's paragraphs by the text: one paragraph of one unformatted run
    /// per line (lines are separated by `\n`); the frame's other properties stay.
    pub fn set_text(&mut self, text: &str)
        ensures
            final(self)@ == (FrameView { paragraphs: text_paras(text@), ..old(self)@ }),
    {
        let chars = str_to_chars(text);
        let mut done: Vec<Paragraph> = Vec::new();
        let mut cur = String::new();
        let mut i: usize = 0;
        proof { reveal_with_fuel(split_lines, 2); }
        assert(chars@.take(0) =~= Seq::<char>::empty());
        assert(done@.map_values(|p: Paragraph| p@) =~= split_lines(chars@.take(0)).drop_last().map_values(|l: Seq<char>| text_para(l)));
        while i < chars.len()
            invariant
                chars@ == text@,
                i <= chars.len(),
                split_lines(chars@.take(i as int)).len() >= 1,
                done@.map_values(|p: Paragraph| p@) == split_lines(chars@.take(i as int)).drop_last().map_values(|l: Seq<char>| text_para(l)),
                cur@ == split_lines(chars@.take(i as int)).last(),
            decreases chars.len() - i,
        {
            let ghost t1 = chars@.take(i as int + 1);
            let ghost prev = split_lines(chars@.take(i as int));
            assert(t1.drop_last() =~= chars@.take(i as int));
            assert(t1.last() == chars@[i as int]);
            let c = chars[i];
            if c == '\n' {
                let mut line = String::new();
                std::mem::swap(&mut line, &mut cur);
                let ghost old_done = done@.map_values(|p: Paragraph| p@);
                let p = text_paragraph(line);
                done.push(p);
                assert(split_lines(t1) == prev.push(Seq::<char>::empty()));
                assert(split_lines(t1).drop_last() =~= prev);
                assert(prev =~= prev.drop_last().push(prev.last()));
                assert(done@.map_values(|p: Paragraph| p@) =~= old_done.push(text_para(prev.last())));
                assert(prev.map_values(|l: Seq<char>| text_para(l)) =~= prev.drop_last().map_values(|l: Seq<char>| text_para(l)).push(text_para(prev.last())));
            } else {
                string_push(&mut cur, c);
                assert(split_lines(t1) == prev.update(prev.len() - 1, prev.last().push(c)));
                assert(split_lines(t1).drop_last() =~= prev.drop_last());
            }
            i = i + 1;
        }
        assert(chars@.take(chars.len() as int) =~= text@);
        let ghost all = split_lines(text@);
        let ghost old_done = done@.map_values(|p: Paragraph| p@);
        assert(split_lines(chars@.take(i as int)) == all);
        let last = text_paragraph(cur);
        assert(last@ == text_para(all.last()));
        done.push(last);
        assert(done@.map_values(|p: Paragraph| p@) =~= old_done.push(text_para(all.last())));
        assert(all =~= all.drop_last().push(all.last()));
        assert(all.map_values(|l: Seq<char>| text_para(l)) =~= all.drop_last().map_values(|l: Seq<char>| text_para(l)).push(text_para(all.last())));
        assert(done@.map_values(|p: Paragraph| p@) =~= text_paras(text@));
        self.paragraphs = done;
    }
}

} // verus!
