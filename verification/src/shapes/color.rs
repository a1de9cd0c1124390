//! Colours of DrawingML (`srgbClr`, `schemeClr`, `sysClr`, `hslClr`, `prstClr`) and the
//! reader that finds the first one in a fragment.
use vstd::prelude::*;
use crate::error::PptxError;
use crate::scan::{i64_text_value, parse_i64_text};
use crate::shapes::parse::{attr_exec, attr_of};
use crate::theme::{RGBColor, brightness_of, hex_rgb, lum_continue, lum_from, opt_wide, parse_hex_rgb, rgb_of, theme_brightness};
use crate::xml::{
    EventView, XmlEvent, bytes_are, bytes_equal_str, is_final, next_event, reader_events, tag_local,
    tag_local_name, xml_events, xml_reader,
};

verus! {

/// A theme colour: the scheme colour's token and its brightness in 100000ths (a tint above
/// zero, a shade below).
#[derive(Debug, Clone)]
pub struct ThemeColor {
    pub theme_color: String,
    pub brightness: Option<i128>,
}

/// A system colour: its token and the last colour it stood for.
#[derive(Debug, Clone)]
pub struct SystemColor {
    pub val: String,
    pub last_color: Option<String>,
}

/// An HSL colour as written: hue in 60000ths of a degree, saturation and luminance in
/// 1000ths of a percent.
#[derive(Debug, Clone, Copy, PartialEq, Eq)]
pub struct HslColor {
    pub hue: i64,
    pub sat: i64,
    pub lum: i64,
}

/// A colour.
#[derive(Debug, Clone)]
pub enum ColorFormat {
    Rgb(RGBColor),
    Theme(ThemeColor),
    System(SystemColor),
    Hsl(HslColor),
    /// A preset colour's token (`black`, `red`, ...).
    Preset(String),
}

/// The value of a [`ColorFormat`].
pub enum ColorView {
    Rgb((u8, u8, u8)),
    Theme(Seq<char>, Option<int>),
    System(Seq<char>, Option<Seq<char>>),
    Hsl(i64, i64, i64),
    Preset(Seq<char>),
}

impl View for ColorFormat {
    type V = ColorView;

    open spec fn view(&self) -> ColorView {
        match self {
            ColorFormat::Rgb(c) => ColorView::Rgb(rgb_of(*c)),
            ColorFormat::Theme(t) => ColorView::Theme(t.theme_color@, opt_wide(t.brightness)),
            ColorFormat::System(s) => ColorView::System(s.val@, match s.last_color { Some(x) => Some(x@), None => None }),
            ColorFormat::Hsl(h) => ColorView::Hsl(h.hue, h.sat, h.lum),
            ColorFormat::Preset(p) => ColorView::Preset(p@),
        }
    }
}

/// A number attribute: its value when it is a number, else 0.
pub open spec fn num_or_zero(a: Option<Seq<char>>) -> i64 {
    match a {
        Some(t) => match i64_text_value(t) {
            Some(v) => v,
            None => 0,
        },
        None => 0,
    }
}

/// What the tag at position `i` (content `c`, name length `n`) gives: a colour, a refused
/// attribute (`Err`), or `None` to read on. An `srgbClr` gives its colour when `val` is six
/// hex digits; a `schemeClr` with a `val` gives a theme colour whose brightness comes from
/// the `lumMod` / `lumOff` that follow, up to the end of the element; `sysClr` (default
/// token `windowText`), `hslClr` (missing or unreadable numbers are 0) and `prstClr`
/// (default token `black`) always give their colour.
pub open spec fn color_tag(ev: Seq<EventView>, i: int, c: Seq<u8>, n: usize) -> Option<Result<Option<ColorView>, ()>> {
    let k = tag_local_name(c, n);
    if bytes_are(k, "srgbClr"@) {
        match attr_of(c, n, "val"@) {
            Err(_) => Some(Err(())),
            Ok(Some(t)) => match hex_rgb(t) {
                Some(rgb) => Some(Ok(Some(ColorView::Rgb(rgb)))),
                None => None,
            },
            Ok(None) => None,
        }
    } else if bytes_are(k, "schemeClr"@) {
        match attr_of(c, n, "val"@) {
            Err(_) => Some(Err(())),
            Ok(Some(t)) => Some(match lum_from(ev, i + 1, 1, None, None) {
                Ok((m, o)) => Ok(Some(ColorView::Theme(t, brightness_of(m, o)))),
                Err(_) => Err(()),
            }),
            Ok(None) => None,
        }
    } else if bytes_are(k, "sysClr"@) {
        match (attr_of(c, n, "val"@), attr_of(c, n, "lastClr"@)) {
            (Ok(v), Ok(l)) => Some(Ok(Some(ColorView::System(
                match v { Some(t) => t, None => "windowText"@ },
                l,
            )))),
            _ => Some(Err(())),
        }
    } else if bytes_are(k, "hslClr"@) {
        match (attr_of(c, n, "hue"@), attr_of(c, n, "sat"@), attr_of(c, n, "lum"@)) {
            (Ok(h), Ok(s), Ok(l)) => Some(Ok(Some(ColorView::Hsl(num_or_zero(h), num_or_zero(s), num_or_zero(l))))),
            _ => Some(Err(())),
        }
    } else if bytes_are(k, "prstClr"@) {
        match attr_of(c, n, "val"@) {
            Ok(v) => Some(Ok(Some(ColorView::Preset(match v { Some(t) => t, None => "black"@ })))),
            Err(_) => Some(Err(())),
        }
    } else {
        None
    }
}

/// What a colour tag gives, read attribute by attribute: an `srgbClr` whose `val` is six hex
/// digits is that colour; an `hslClr` has the numbers of its `hue`, `sat` and `lum` (0 where
/// missing or not a number); a `sysClr` has the token of `val` and the colour of `lastClr`.
pub proof fn lemma_color_tag_attributes(ev: Seq<EventView>, i: int, c: Seq<u8>, n: usize)
    ensures
        bytes_are(tag_local_name(c, n), "srgbClr"@) ==> match attr_of(c, n, "val"@) {
            Ok(Some(t)) => match hex_rgb(t) {
                Some(rgb) => color_tag(ev, i, c, n) == Some(Ok::<Option<ColorView>, ()>(Some(ColorView::Rgb(rgb)))),
                None => true,
            },
            _ => true,
        },
        bytes_are(tag_local_name(c, n), "hslClr"@) ==> match (attr_of(c, n, "hue"@), attr_of(c, n, "sat"@), attr_of(c, n, "lum"@)) {
            (Ok(h), Ok(sa), Ok(l)) => color_tag(ev, i, c, n) == Some(Ok::<Option<ColorView>, ()>(Some(ColorView::Hsl(num_or_zero(h), num_or_zero(sa), num_or_zero(l))))),
            _ => true,
        },
        bytes_are(tag_local_name(c, n), "sysClr"@) ==> match (attr_of(c, n, "val"@), attr_of(c, n, "lastClr"@)) {
            (Ok(Some(v)), Ok(last)) => color_tag(ev, i, c, n) == Some(Ok::<Option<ColorView>, ()>(Some(ColorView::System(v, last)))),
            _ => true,
        },
{
    reveal_strlit("srgbClr");
    reveal_strlit("schemeClr");
    reveal_strlit("sysClr");
    reveal_strlit("hslClr");
    crate::enums::lemma_text_ne("hslClr"@, "srgbClr"@, 0);
    crate::enums::lemma_text_ne("hslClr"@, "schemeClr"@, 0);
    crate::enums::lemma_text_ne("hslClr"@, "sysClr"@, 0);
    crate::enums::lemma_text_ne("sysClr"@, "srgbClr"@, 1);
    crate::enums::lemma_text_ne("sysClr"@, "schemeClr"@, 0);
}

/// Reading from position `i` on: the first start or empty-element tag that gives a colour
/// or a refusal decides; the end of input or a reader error gives no colour.
pub open spec fn color_from(ev: Seq<EventView>, i: int) -> Result<Option<ColorView>, ()>
    decreases ev.len() - i,
{
    if i < 0 || i >= ev.len() || is_final(ev[i]) {
        Ok(None)
    } else {
        match ev[i] {
            EventView::Start(c, n) => match color_tag(ev, i, c, n) {
                Some(r) => r,
                None => color_from(ev, i + 1),
            },
            EventView::Empty(c, n) => match color_tag(ev, i, c, n) {
                Some(r) => r,
                None => color_from(ev, i + 1),
            },
            _ => color_from(ev, i + 1),
        }
    }
}

/// The first colour in an XML fragment, read with text trimmed (see `color_from`).
pub open spec fn color_read(xml: Seq<u8>) -> Result<Option<ColorView>, ()> {
    color_from(xml_events(xml), 0)
}

fn num_or_zero_exec(a: &Option<String>) -> (r: i64)
    ensures
        r == num_or_zero(match a { Some(x) => Some(x@), None => None }),
{
    match a {
        Some(t) => match parse_i64_text(t.as_str()) {
            Some(v) => v,
            None => 0,
        },
        None => 0,
    }
}

/// Reads the first colour of an XML fragment (see `color_read`): `Ok(None)` when there is
/// none; `PptxError::MalformedAttribute` when the reader refuses an attribute of the tag
/// that decides.
#[verifier::rlimit(60)]
pub fn parse_color(xml: &[u8]) -> (r: Result<Option<ColorFormat>, PptxError>)
    ensures
        match color_read(xml@) {
            Ok(Some(v)) => r matches Ok(Some(x)) && x@ == v,
            Ok(None) => r matches Ok(None),
            Err(_) => r == Err::<Option<ColorFormat>, PptxError>(PptxError::MalformedAttribute),
        },
{
    let n = xml.len();
    let mut reader = xml_reader(xml);
    let ghost ev = xml_events(xml@);
    let ghost mut i: int = 0;
    loop
        invariant
            ev == xml_events(xml@),
            0 < ev.len() <= n + 1,
            is_final(ev.last()),
            forall|k: int| 0 <= k < ev.len() - 1 ==> !is_final(#[trigger] ev[k]),
            0 <= i < ev.len(),
            reader_events(reader) == ev.subrange(i, ev.len() as int),
            color_from(ev, 0) == color_from(ev, i),
        decreases ev.len() - i,
    {
        let e = next_event(&mut reader);
        proof {
            if i < ev.len() - 1 {
                assert(ev.subrange(i, ev.len() as int).drop_first() == ev.subrange(i + 1, ev.len() as int));
            }
        }
        assert(e@ == ev[i]);
        let tag: Option<(Vec<u8>, usize)> = match e {
            XmlEvent::Start(c, k) => Some((c, k)),
            XmlEvent::Empty(c, k) => Some((c, k)),
            XmlEvent::Eof | XmlEvent::Error => {
                return Ok(None);
            },
            _ => None,
        };
        assert(i < ev.len() - 1) by {
            if i == ev.len() - 1 {
                assert(ev.last() == ev[i]);
            }
        }
        match tag {
            Some((c, k)) => {
                let ghost ct = color_tag(ev, i, c@, k);
                let ln = tag_local(c.as_slice(), k);
                if bytes_equal_str(ln.as_slice(), "srgbClr") {
                    match attr_exec(&c, k, "val") {
                        Err(_) => { return Err(PptxError::MalformedAttribute); },
                        Ok(Some(t)) => match parse_hex_rgb(t.as_str()) {
                            Some(rgb) => { return Ok(Some(ColorFormat::Rgb(rgb))); },
                            None => {},
                        },
                        Ok(None) => {},
                    }
                } else if bytes_equal_str(ln.as_slice(), "schemeClr") {
                    match attr_exec(&c, k, "val") {
                        Err(_) => { return Err(PptxError::MalformedAttribute); },
                        Ok(Some(t)) => {
                            match lum_continue(&mut reader, Ghost(ev), Ghost(i + 1)) {
                                Ok((m, o)) => {
                                    let b = theme_brightness(m, o);
                                    return Ok(Some(ColorFormat::Theme(ThemeColor { theme_color: t, brightness: b })));
                                },
                                Err(_) => { return Err(PptxError::MalformedAttribute); },
                            }
                        },
                        Ok(None) => {},
                    }
                } else if bytes_equal_str(ln.as_slice(), "sysClr") {
                    let v = match attr_exec(&c, k, "val") {
                        Ok(x) => x,
                        Err(_) => { return Err(PptxError::MalformedAttribute); },
                    };
                    let l = match attr_exec(&c, k, "lastClr") {
                        Ok(x) => x,
                        Err(_) => { return Err(PptxError::MalformedAttribute); },
                    };
                    let val = match v {
                        Some(t) => t,
                        None => "windowText".to_owned(),
                    };
                    proof { reveal_strlit("windowText"); }
                    return Ok(Some(ColorFormat::System(SystemColor { val, last_color: l })));
                } else if bytes_equal_str(ln.as_slice(), "hslClr") {
                    let h = match attr_exec(&c, k, "hue") {
                        Ok(x) => x,
                        Err(_) => { return Err(PptxError::MalformedAttribute); },
                    };
                    let s = match attr_exec(&c, k, "sat") {
                        Ok(x) => x,
                        Err(_) => { return Err(PptxError::MalformedAttribute); },
                    };
                    let l = match attr_exec(&c, k, "lum") {
                        Ok(x) => x,
                        Err(_) => { return Err(PptxError::MalformedAttribute); },
                    };
                    let hsl = HslColor { hue: num_or_zero_exec(&h), sat: num_or_zero_exec(&s), lum: num_or_zero_exec(&l) };
                    return Ok(Some(ColorFormat::Hsl(hsl)));
                } else if bytes_equal_str(ln.as_slice(), "prstClr") {
                    let v = match attr_exec(&c, k, "val") {
                        Ok(x) => x,
                        Err(_) => { return Err(PptxError::MalformedAttribute); },
                    };
                    let val = match v {
                        Some(t) => t,
                        None => "black".to_owned(),
                    };
                    proof { reveal_strlit("black"); }
                    return Ok(Some(ColorFormat::Preset(val)));
                }
                assert(ct is None);
            },
            None => {},
        }
        proof { i = i + 1; }
    }
}

} // verus!
