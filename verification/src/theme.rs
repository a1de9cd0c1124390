//! Themes: the colour scheme of a theme part (`<a:clrScheme>`).
use vstd::prelude::*;
use crate::error::PptxError;
use crate::presentation::fonts::{FontFail, font_fail_is, tag_value, tag_value_exec};
use crate::text::str_to_chars;
use crate::xml::{
    EventView, XmlEvent, bytes_are, bytes_equal_str, is_final, local_name, local_name_spec, next_event, reader_events,
    tag_local, tag_local_name, xml_events, xml_reader,
};

verus! {

/// A colour given by its red, green and blue components.
#[derive(Debug, Clone, Copy, PartialEq, Eq, Structural)]
pub struct RGBColor {
    pub r: u8,
    pub g: u8,
    pub b: u8,
}

/// The twelve colours of a theme's colour scheme.
#[derive(Debug, Clone, Copy, PartialEq, Eq, Structural)]
pub struct ThemeColorScheme {
    /// Dark 1 (usually text).
    pub dk1: RGBColor,
    /// Light 1 (usually background).
    pub lt1: RGBColor,
    /// Dark 2.
    pub dk2: RGBColor,
    /// Light 2.
    pub lt2: RGBColor,
    pub accent1: RGBColor,
    pub accent2: RGBColor,
    pub accent3: RGBColor,
    pub accent4: RGBColor,
    pub accent5: RGBColor,
    pub accent6: RGBColor,
    /// Hyperlink.
    pub hlink: RGBColor,
    /// Followed hyperlink.
    pub fol_hlink: RGBColor,
}

/// A colour as its three components.
pub open spec fn rgb_of(c: RGBColor) -> (u8, u8, u8) {
    (c.r, c.g, c.b)
}

impl View for ThemeColorScheme {
    type V = Seq<(u8, u8, u8)>;

    /// The colours in scheme order: dk1, lt1, dk2, lt2, accent1 to accent6, hlink, folHlink.
    open spec fn view(&self) -> Seq<(u8, u8, u8)> {
        seq![
            rgb_of(self.dk1), rgb_of(self.lt1), rgb_of(self.dk2), rgb_of(self.lt2),
            rgb_of(self.accent1), rgb_of(self.accent2), rgb_of(self.accent3), rgb_of(self.accent4),
            rgb_of(self.accent5), rgb_of(self.accent6), rgb_of(self.hlink), rgb_of(self.fol_hlink),
        ]
    }
}

/// The value of a hexadecimal digit (either case).
pub open spec fn hex_digit(c: char) -> Option<u8> {
    let v = c as int;
    if 48 <= v <= 57 {
        Some((v - 48) as u8)
    } else if 65 <= v <= 70 {
        Some((v - 55) as u8)
    } else if 97 <= v <= 102 {
        Some((v - 87) as u8)
    } else {
        None
    }
}

/// The byte that two hexadecimal digits at `i` give.
pub open spec fn hex_byte(s: Seq<char>, i: int) -> Option<u8> {
    match (hex_digit(s[i]), hex_digit(s[i + 1])) {
        (Some(h), Some(l)) => Some((h * 16 + l) as u8),
        _ => None,
    }
}

/// The colour that six hexadecimal digits (`RRGGBB`) give; `None` for other text.
pub open spec fn hex_rgb(s: Seq<char>) -> Option<(u8, u8, u8)> {
    if s.len() != 6 {
        None
    } else {
        match (hex_byte(s, 0), hex_byte(s, 2), hex_byte(s, 4)) {
            (Some(r), Some(g), Some(b)) => Some((r, g, b)),
            _ => None,
        }
    }
}

fn hex_digit_exec(c: char) -> (r: Option<u8>)
    ensures
        r == hex_digit(c),
{
    let v = c as u32;
    if 48 <= v && v <= 57 {
        Some((v - 48) as u8)
    } else if 65 <= v && v <= 70 {
        Some((v - 55) as u8)
    } else if 97 <= v && v <= 102 {
        Some((v - 87) as u8)
    } else {
        None
    }
}

fn hex_byte_exec(s: &Vec<char>, i: usize) -> (r: Option<u8>)
    requires
        i + 1 < s.len(),
    ensures
        r == hex_byte(s@, i as int),
{
    match (hex_digit_exec(s[i]), hex_digit_exec(s[i + 1])) {
        (Some(h), Some(l)) => Some(h * 16 + l),
        _ => None,
    }
}

/// The colour of six hexadecimal digits (see `hex_rgb`).
pub fn parse_hex_rgb(s: &str) -> (r: Option<RGBColor>)
    ensures
        match hex_rgb(s@) {
            Some(c) => r matches Some(x) && rgb_of(x) == c,
            None => r is None,
        },
{
    let v = str_to_chars(s);
    if v.len() != 6 {
        return None;
    }
    match (hex_byte_exec(&v, 0), hex_byte_exec(&v, 2), hex_byte_exec(&v, 4)) {
        (Some(r), Some(g), Some(b)) => Some(RGBColor { r, g, b }),
        _ => None,
    }
}

/// The position of a scheme slot by its element's local name.
pub open spec fn slot_index(ln: Seq<u8>) -> Option<int> {
    if bytes_are(ln, "dk1"@) { Some(0) }
    else if bytes_are(ln, "lt1"@) { Some(1) }
    else if bytes_are(ln, "dk2"@) { Some(2) }
    else if bytes_are(ln, "lt2"@) { Some(3) }
    else if bytes_are(ln, "accent1"@) { Some(4) }
    else if bytes_are(ln, "accent2"@) { Some(5) }
    else if bytes_are(ln, "accent3"@) { Some(6) }
    else if bytes_are(ln, "accent4"@) { Some(7) }
    else if bytes_are(ln, "accent5"@) { Some(8) }
    else if bytes_are(ln, "accent6"@) { Some(9) }
    else if bytes_are(ln, "hlink"@) { Some(10) }
    else if bytes_are(ln, "folHlink"@) { Some(11) }
    else { None }
}

/// The local names of the scheme's slot elements, in the order of a scheme's view (the
/// order of the fields of `ThemeColorScheme`).
pub open spec fn scheme_slot_names() -> Seq<Seq<char>> {
    seq!["dk1"@, "lt1"@, "dk2"@, "lt2"@, "accent1"@, "accent2"@, "accent3"@, "accent4"@, "accent5"@, "accent6"@, "hlink"@, "folHlink"@]
}

/// A slot element's local name finds the position of the field of the same name, and only
/// that name finds it.
pub proof fn lemma_slot_index_names(ln: Seq<u8>, k: int)
    requires
        0 <= k < 12,
    ensures
        slot_index(ln) == Some(k) <==> bytes_are(ln, scheme_slot_names()[k]),
{
    reveal_strlit("dk1");
    reveal_strlit("lt1");
    reveal_strlit("dk2");
    reveal_strlit("lt2");
    reveal_strlit("accent1");
    reveal_strlit("accent2");
    reveal_strlit("accent3");
    reveal_strlit("accent4");
    reveal_strlit("accent5");
    reveal_strlit("accent6");
    reveal_strlit("hlink");
    reveal_strlit("folHlink");
    let ns = scheme_slot_names();
    crate::enums::lemma_text_ne("dk1"@, "lt1"@, 0);
    crate::enums::lemma_text_ne("dk1"@, "dk2"@, 2);
    crate::enums::lemma_text_ne("dk1"@, "lt2"@, 0);
    crate::enums::lemma_text_ne("dk1"@, "accent1"@, 0);
    crate::enums::lemma_text_ne("dk1"@, "accent2"@, 0);
    crate::enums::lemma_text_ne("dk1"@, "accent3"@, 0);
    crate::enums::lemma_text_ne("dk1"@, "accent4"@, 0);
    crate::enums::lemma_text_ne("dk1"@, "accent5"@, 0);
    crate::enums::lemma_text_ne("dk1"@, "accent6"@, 0);
    crate::enums::lemma_text_ne("dk1"@, "hlink"@, 0);
    crate::enums::lemma_text_ne("dk1"@, "folHlink"@, 0);
    crate::enums::lemma_text_ne("lt1"@, "dk2"@, 0);
    crate::enums::lemma_text_ne("lt1"@, "lt2"@, 2);
    crate::enums::lemma_text_ne("lt1"@, "accent1"@, 0);
    crate::enums::lemma_text_ne("lt1"@, "accent2"@, 0);
    crate::enums::lemma_text_ne("lt1"@, "accent3"@, 0);
    crate::enums::lemma_text_ne("lt1"@, "accent4"@, 0);
    crate::enums::lemma_text_ne("lt1"@, "accent5"@, 0);
    crate::enums::lemma_text_ne("lt1"@, "accent6"@, 0);
    crate::enums::lemma_text_ne("lt1"@, "hlink"@, 0);
    crate::enums::lemma_text_ne("lt1"@, "folHlink"@, 0);
    crate::enums::lemma_text_ne("dk2"@, "lt2"@, 0);
    crate::enums::lemma_text_ne("dk2"@, "accent1"@, 0);
    crate::enums::lemma_text_ne("dk2"@, "accent2"@, 0);
    crate::enums::lemma_text_ne("dk2"@, "accent3"@, 0);
    crate::enums::lemma_text_ne("dk2"@, "accent4"@, 0);
    crate::enums::lemma_text_ne("dk2"@, "accent5"@, 0);
    crate::enums::lemma_text_ne("dk2"@, "accent6"@, 0);
    crate::enums::lemma_text_ne("dk2"@, "hlink"@, 0);
    crate::enums::lemma_text_ne("dk2"@, "folHlink"@, 0);
    crate::enums::lemma_text_ne("lt2"@, "accent1"@, 0);
    crate::enums::lemma_text_ne("lt2"@, "accent2"@, 0);
    crate::enums::lemma_text_ne("lt2"@, "accent3"@, 0);
    crate::enums::lemma_text_ne("lt2"@, "accent4"@, 0);
    crate::enums::lemma_text_ne("lt2"@, "accent5"@, 0);
    crate::enums::lemma_text_ne("lt2"@, "accent6"@, 0);
    crate::enums::lemma_text_ne("lt2"@, "hlink"@, 0);
    crate::enums::lemma_text_ne("lt2"@, "folHlink"@, 0);
    crate::enums::lemma_text_ne("accent1"@, "accent2"@, 6);
    crate::enums::lemma_text_ne("accent1"@, "accent3"@, 6);
    crate::enums::lemma_text_ne("accent1"@, "accent4"@, 6);
    crate::enums::lemma_text_ne("accent1"@, "accent5"@, 6);
    crate::enums::lemma_text_ne("accent1"@, "accent6"@, 6);
    crate::enums::lemma_text_ne("accent1"@, "hlink"@, 0);
    crate::enums::lemma_text_ne("accent1"@, "folHlink"@, 0);
    crate::enums::lemma_text_ne("accent2"@, "accent3"@, 6);
    crate::enums::lemma_text_ne("accent2"@, "accent4"@, 6);
    crate::enums::lemma_text_ne("accent2"@, "accent5"@, 6);
    crate::enums::lemma_text_ne("accent2"@, "accent6"@, 6);
    crate::enums::lemma_text_ne("accent2"@, "hlink"@, 0);
    crate::enums::lemma_text_ne("accent2"@, "folHlink"@, 0);
    crate::enums::lemma_text_ne("accent3"@, "accent4"@, 6);
    crate::enums::lemma_text_ne("accent3"@, "accent5"@, 6);
    crate::enums::lemma_text_ne("accent3"@, "accent6"@, 6);
    crate::enums::lemma_text_ne("accent3"@, "hlink"@, 0);
    crate::enums::lemma_text_ne("accent3"@, "folHlink"@, 0);
    crate::enums::lemma_text_ne("accent4"@, "accent5"@, 6);
    crate::enums::lemma_text_ne("accent4"@, "accent6"@, 6);
    crate::enums::lemma_text_ne("accent4"@, "hlink"@, 0);
    crate::enums::lemma_text_ne("accent4"@, "folHlink"@, 0);
    crate::enums::lemma_text_ne("accent5"@, "accent6"@, 6);
    crate::enums::lemma_text_ne("accent5"@, "hlink"@, 0);
    crate::enums::lemma_text_ne("accent5"@, "folHlink"@, 0);
    crate::enums::lemma_text_ne("accent6"@, "hlink"@, 0);
    crate::enums::lemma_text_ne("accent6"@, "folHlink"@, 0);
    crate::enums::lemma_text_ne("hlink"@, "folHlink"@, 0);
}

/// Each field of a scheme is read from the element of the same name: the name of a field's
/// element finds, in the scheme's view, the position that holds that field.
pub proof fn lemma_slot_index_finds_field(s: ThemeColorScheme)
    ensures
        slot_index(vstd::utf8::encode_utf8("dk1"@)) matches Some(k) && s@[k] == rgb_of(s.dk1),
        slot_index(vstd::utf8::encode_utf8("lt1"@)) matches Some(k) && s@[k] == rgb_of(s.lt1),
        slot_index(vstd::utf8::encode_utf8("dk2"@)) matches Some(k) && s@[k] == rgb_of(s.dk2),
        slot_index(vstd::utf8::encode_utf8("lt2"@)) matches Some(k) && s@[k] == rgb_of(s.lt2),
        slot_index(vstd::utf8::encode_utf8("accent1"@)) matches Some(k) && s@[k] == rgb_of(s.accent1),
        slot_index(vstd::utf8::encode_utf8("accent2"@)) matches Some(k) && s@[k] == rgb_of(s.accent2),
        slot_index(vstd::utf8::encode_utf8("accent3"@)) matches Some(k) && s@[k] == rgb_of(s.accent3),
        slot_index(vstd::utf8::encode_utf8("accent4"@)) matches Some(k) && s@[k] == rgb_of(s.accent4),
        slot_index(vstd::utf8::encode_utf8("accent5"@)) matches Some(k) && s@[k] == rgb_of(s.accent5),
        slot_index(vstd::utf8::encode_utf8("accent6"@)) matches Some(k) && s@[k] == rgb_of(s.accent6),
        slot_index(vstd::utf8::encode_utf8("hlink"@)) matches Some(k) && s@[k] == rgb_of(s.hlink),
        slot_index(vstd::utf8::encode_utf8("folHlink"@)) matches Some(k) && s@[k] == rgb_of(s.fol_hlink),
{
    vstd::utf8::encode_utf8_decode_utf8("dk1"@);
    vstd::utf8::encode_utf8_valid_utf8("dk1"@);
    lemma_slot_index_names(vstd::utf8::encode_utf8("dk1"@), 0);
    assert(scheme_slot_names()[0] == "dk1"@);
    vstd::utf8::encode_utf8_decode_utf8("lt1"@);
    vstd::utf8::encode_utf8_valid_utf8("lt1"@);
    lemma_slot_index_names(vstd::utf8::encode_utf8("lt1"@), 1);
    assert(scheme_slot_names()[1] == "lt1"@);
    vstd::utf8::encode_utf8_decode_utf8("dk2"@);
    vstd::utf8::encode_utf8_valid_utf8("dk2"@);
    lemma_slot_index_names(vstd::utf8::encode_utf8("dk2"@), 2);
    assert(scheme_slot_names()[2] == "dk2"@);
    vstd::utf8::encode_utf8_decode_utf8("lt2"@);
    vstd::utf8::encode_utf8_valid_utf8("lt2"@);
    lemma_slot_index_names(vstd::utf8::encode_utf8("lt2"@), 3);
    assert(scheme_slot_names()[3] == "lt2"@);
    vstd::utf8::encode_utf8_decode_utf8("accent1"@);
    vstd::utf8::encode_utf8_valid_utf8("accent1"@);
    lemma_slot_index_names(vstd::utf8::encode_utf8("accent1"@), 4);
    assert(scheme_slot_names()[4] == "accent1"@);
    vstd::utf8::encode_utf8_decode_utf8("accent2"@);
    vstd::utf8::encode_utf8_valid_utf8("accent2"@);
    lemma_slot_index_names(vstd::utf8::encode_utf8("accent2"@), 5);
    assert(scheme_slot_names()[5] == "accent2"@);
    vstd::utf8::encode_utf8_decode_utf8("accent3"@);
    vstd::utf8::encode_utf8_valid_utf8("accent3"@);
    lemma_slot_index_names(vstd::utf8::encode_utf8("accent3"@), 6);
    assert(scheme_slot_names()[6] == "accent3"@);
    vstd::utf8::encode_utf8_decode_utf8("accent4"@);
    vstd::utf8::encode_utf8_valid_utf8("accent4"@);
    lemma_slot_index_names(vstd::utf8::encode_utf8("accent4"@), 7);
    assert(scheme_slot_names()[7] == "accent4"@);
    vstd::utf8::encode_utf8_decode_utf8("accent5"@);
    vstd::utf8::encode_utf8_valid_utf8("accent5"@);
    lemma_slot_index_names(vstd::utf8::encode_utf8("accent5"@), 8);
    assert(scheme_slot_names()[8] == "accent5"@);
    vstd::utf8::encode_utf8_decode_utf8("accent6"@);
    vstd::utf8::encode_utf8_valid_utf8("accent6"@);
    lemma_slot_index_names(vstd::utf8::encode_utf8("accent6"@), 9);
    assert(scheme_slot_names()[9] == "accent6"@);
    vstd::utf8::encode_utf8_decode_utf8("hlink"@);
    vstd::utf8::encode_utf8_valid_utf8("hlink"@);
    lemma_slot_index_names(vstd::utf8::encode_utf8("hlink"@), 10);
    assert(scheme_slot_names()[10] == "hlink"@);
    vstd::utf8::encode_utf8_decode_utf8("folHlink"@);
    vstd::utf8::encode_utf8_valid_utf8("folHlink"@);
    lemma_slot_index_names(vstd::utf8::encode_utf8("folHlink"@), 11);
    assert(scheme_slot_names()[11] == "folHlink"@);
}

fn slot_index_exec(ln: &[u8]) -> (r: Option<usize>)
    ensures
        match slot_index(ln@) {
            Some(k) => r == Some(k as usize),
            None => r is None,
        },
{
    if bytes_equal_str(ln, "dk1") { Some(0) }
    else if bytes_equal_str(ln, "lt1") { Some(1) }
    else if bytes_equal_str(ln, "dk2") { Some(2) }
    else if bytes_equal_str(ln, "lt2") { Some(3) }
    else if bytes_equal_str(ln, "accent1") { Some(4) }
    else if bytes_equal_str(ln, "accent2") { Some(5) }
    else if bytes_equal_str(ln, "accent3") { Some(6) }
    else if bytes_equal_str(ln, "accent4") { Some(7) }
    else if bytes_equal_str(ln, "accent5") { Some(8) }
    else if bytes_equal_str(ln, "accent6") { Some(9) }
    else if bytes_equal_str(ln, "hlink") { Some(10) }
    else if bytes_equal_str(ln, "folHlink") { Some(11) }
    else { None }
}

/// What has been read of the scheme so far: whether `<a:clrScheme>` is open, the slot
/// element open inside it, and the colour found for each slot.
pub struct SchemeRead {
    pub in_scheme: bool,
    pub slot: Option<int>,
    pub colors: Seq<Option<(u8, u8, u8)>>,
}

/// The state before the first event: no colours yet.
pub open spec fn scheme_start() -> SchemeRead {
    SchemeRead { in_scheme: false, slot: None, colors: Seq::new(12, |k: int| None) }
}

/// A start or empty-element tag. `<a:clrScheme>` opens the scheme; inside it, the start
/// tag of a slot opens that slot; inside a slot without a colour yet, `<a:srgbClr>` gives
/// the colour of its `val` and `<a:sysClr>` that of its `lastClr`, when six hexadecimal
/// digits.
pub open spec fn scheme_tag(st: SchemeRead, c: Seq<u8>, n: usize, is_start: bool) -> Result<SchemeRead, FontFail> {
    let ln = tag_local_name(c, n);
    if bytes_are(ln, "clrScheme"@) {
        Ok(SchemeRead { in_scheme: true, ..st })
    } else if st.in_scheme && is_start && slot_index(ln) is Some {
        Ok(SchemeRead { slot: slot_index(ln), ..st })
    } else if st.in_scheme && st.slot is Some && st.colors[st.slot.unwrap()] is None
        && (bytes_are(ln, "srgbClr"@) || bytes_are(ln, "sysClr"@)) {
        let key = if bytes_are(ln, "srgbClr"@) { "val"@ } else { "lastClr"@ };
        match tag_value(c, n, key, key) {
            Ok(Some(v)) => match hex_rgb(v) {
                Some(rgb) => Ok(SchemeRead { colors: st.colors.update(st.slot.unwrap(), Some(rgb)), ..st }),
                None => Ok(st),
            },
            Ok(None) => Ok(st),
            Err(f) => Err(f),
        }
    } else {
        Ok(st)
    }
}

/// The scheme, when every slot has a colour.
pub open spec fn scheme_done(colors: Seq<Option<(u8, u8, u8)>>) -> Option<Seq<(u8, u8, u8)>> {
    if forall|k: int| 0 <= k < 12 ==> #[trigger] colors[k] is Some {
        Some(Seq::new(12, |k: int| colors[k].unwrap()))
    } else {
        None
    }
}

/// The scheme read from the events from position `i` on: complete at the end of the first
/// `<a:clrScheme>` or at the end of input; `Err` on a reader error or a refused tag.
pub open spec fn scheme_from(ev: Seq<EventView>, i: int, st: SchemeRead) -> Result<Option<Seq<(u8, u8, u8)>>, FontFail>
    decreases ev.len() - i,
{
    if i < 0 || i >= ev.len() {
        Ok(scheme_done(st.colors))
    } else {
        match ev[i] {
            EventView::Eof => Ok(scheme_done(st.colors)),
            EventView::Error => Err(FontFail::Reader),
            EventView::Start(c, n) => match scheme_tag(st, c, n, true) {
                Ok(s2) => scheme_from(ev, i + 1, s2),
                Err(f) => Err(f),
            },
            EventView::Empty(c, n) => match scheme_tag(st, c, n, false) {
                Ok(s2) => scheme_from(ev, i + 1, s2),
                Err(f) => Err(f),
            },
            EventView::End(name) => {
                let ln = local_name_spec(name);
                if st.in_scheme && bytes_are(ln, "clrScheme"@) {
                    Ok(scheme_done(st.colors))
                } else if st.in_scheme && slot_index(ln) is Some {
                    scheme_from(ev, i + 1, SchemeRead { slot: None, ..st })
                } else {
                    scheme_from(ev, i + 1, st)
                }
            },
            _ => scheme_from(ev, i + 1, st),
        }
    }
}

/// The colour scheme of a theme part's bytes (see `scheme_from`).
pub open spec fn theme_scheme_of(b: Seq<u8>) -> Result<Option<Seq<(u8, u8, u8)>>, FontFail> {
    scheme_from(xml_events(b), 0, scheme_start())
}

/// The views of the colours read so far.
pub open spec fn colors_view(v: Seq<Option<RGBColor>>) -> Seq<Option<(u8, u8, u8)>> {
    v.map_values(|c: Option<RGBColor>| match c { Some(x) => Some(rgb_of(x)), None => None })
}

fn finish(colors: &Vec<Option<RGBColor>>) -> (r: Option<ThemeColorScheme>)
    requires
        colors@.len() == 12,
    ensures
        match scheme_done(colors_view(colors@)) {
            Some(s) => r matches Some(x) && x@ == s,
            None => r is None,
        },
{
    let ghost cv = colors_view(colors@);
    let mut i: usize = 0;
    while i < 12
        invariant
            i <= 12,
            colors@.len() == 12,
            cv == colors_view(colors@),
            forall|k: int| 0 <= k < i ==> #[trigger] cv[k] is Some,
        decreases 12 - i,
    {
        if colors[i].is_none() {
            assert(!(cv[i as int] is Some));
            return None;
        }
        i = i + 1;
    }
    assert forall|k: int| 0 <= k < 12 implies #[trigger] colors@[k] is Some by {
        assert(cv[k] is Some);
    }
    let s = ThemeColorScheme {
        dk1: colors[0].unwrap(),
        lt1: colors[1].unwrap(),
        dk2: colors[2].unwrap(),
        lt2: colors[3].unwrap(),
        accent1: colors[4].unwrap(),
        accent2: colors[5].unwrap(),
        accent3: colors[6].unwrap(),
        accent4: colors[7].unwrap(),
        accent5: colors[8].unwrap(),
        accent6: colors[9].unwrap(),
        hlink: colors[10].unwrap(),
        fol_hlink: colors[11].unwrap(),
    };
    assert(s@ =~= Seq::new(12, |k: int| cv[k].unwrap()));
    Some(s)
}

/// Reads the colour scheme of a theme part (see `theme_scheme_of`): `Ok(None)` when it has
/// no `<a:clrScheme>` or one of the twelve slots has no colour.
pub fn parse_theme_color_scheme(blob: &[u8]) -> (r: Result<Option<ThemeColorScheme>, PptxError>)
    ensures
        match theme_scheme_of(blob@) {
            Ok(Some(s)) => r matches Ok(Some(x)) && x@ == s,
            Ok(None) => r matches Ok(None),
            Err(f) => r matches Err(e) && font_fail_is(e, f),
        },
{
    let n = blob.len();
    let mut reader = xml_reader(blob);
    let ghost ev = xml_events(blob@);
    let ghost mut i: int = 0;
    let mut in_scheme = false;
    let mut slot: Option<usize> = None;
    let mut colors: Vec<Option<RGBColor>> = Vec::new();
    let mut k: usize = 0;
    while k < 12
        invariant
            k <= 12,
            colors@.len() == k,
            forall|j: int| 0 <= j < k ==> #[trigger] colors@[j] is None,
        decreases 12 - k,
    {
        colors.push(None);
        k = k + 1;
    }
    assert(colors_view(colors@) =~= scheme_start().colors);
    loop
        invariant
            ev == xml_events(blob@),
            0 < ev.len() <= n + 1,
            is_final(ev.last()),
            forall|j: int| 0 <= j < ev.len() - 1 ==> !is_final(#[trigger] ev[j]),
            0 <= i < ev.len(),
            reader_events(reader) == ev.subrange(i, ev.len() as int),
            colors@.len() == 12,
            slot matches Some(s) ==> s < 12,
            theme_scheme_of(blob@) == scheme_from(ev, i, SchemeRead {
                in_scheme,
                slot: match slot { Some(s) => Some(s as int), None => None },
                colors: colors_view(colors@),
            }),
        decreases ev.len() - i,
    {
        let e = next_event(&mut reader);
        proof {
            if i < ev.len() - 1 {
                assert(ev.subrange(i, ev.len() as int).drop_first() == ev.subrange(i + 1, ev.len() as int));
            }
        }
        let ghost cv = colors_view(colors@);
        let is_start = matches!(e, XmlEvent::Start(..));
        match e {
            XmlEvent::Start(c, m) | XmlEvent::Empty(c, m) => {
                let ln = tag_local(c.as_slice(), m);
                if bytes_equal_str(ln.as_slice(), "clrScheme") {
                    in_scheme = true;
                } else if in_scheme && is_start && slot_index_exec(ln.as_slice()).is_some() {
                    slot = slot_index_exec(ln.as_slice());
                } else if in_scheme && slot.is_some() && colors[slot.unwrap()].is_none()
                    && (bytes_equal_str(ln.as_slice(), "srgbClr") || bytes_equal_str(ln.as_slice(), "sysClr")) {
                    let key = if bytes_equal_str(ln.as_slice(), "srgbClr") { "val" } else { "lastClr" };
                    match tag_value_exec(&c, m, key, key)? {
                        Some(v) => match parse_hex_rgb(v.as_str()) {
                            Some(rgb) => {
                                let s = slot.unwrap();
                                colors.set(s, Some(rgb));
                                assert(colors_view(colors@) =~= cv.update(s as int, Some(rgb_of(rgb))));
                            },
                            None => {},
                        },
                        None => {},
                    }
                }
            },
            XmlEvent::End(name) => {
                let ln = local_name(name.as_slice());
                if in_scheme && bytes_equal_str(ln.as_slice(), "clrScheme") {
                    return Ok(finish(&colors));
                } else if in_scheme && slot_index_exec(ln.as_slice()).is_some() {
                    slot = None;
                }
            },
            XmlEvent::Eof => {
                return Ok(finish(&colors));
            },
            XmlEvent::Error => {
                return Err(PptxError::Xml);
            },
            _ => {},
        }
        proof {
            i = i + 1;
        }
    }
}


/// The value of a `lumMod` or `lumOff` element (its `val` attribute, in 100000ths): `None`
/// when the attribute is absent or not a number, `Err` when it is refused.
pub open spec fn lum_val(c: Seq<u8>, n: usize) -> Result<Option<i64>, ()> {
    match crate::shapes::parse::attr_of(c, n, "val"@) {
        Ok(Some(t)) => Ok(crate::scan::i64_text_value(t)),
        Ok(None) => Ok(None),
        Err(_) => Err(()),
    }
}

/// The luminance modifiers read from the events from position `i` on, inside `depth` open
/// elements: a `lumMod` or `lumOff` tag sets its value (the last one counts); the end tag
/// that closes the outermost element, the end of input or an error stops reading.
pub open spec fn lum_from(ev: Seq<EventView>, i: int, depth: int, m: Option<i64>, o: Option<i64>) -> Result<(Option<i64>, Option<i64>), ()>
    decreases ev.len() - i,
{
    if i < 0 || i >= ev.len() {
        Ok((m, o))
    } else {
        match ev[i] {
            EventView::Start(c, n) => {
                let ln = tag_local_name(c, n);
                if bytes_are(ln, "lumMod"@) {
                    match lum_val(c, n) {
                        Ok(v) => lum_from(ev, i + 1, depth + 1, v, o),
                        Err(_) => Err(()),
                    }
                } else if bytes_are(ln, "lumOff"@) {
                    match lum_val(c, n) {
                        Ok(v) => lum_from(ev, i + 1, depth + 1, m, v),
                        Err(_) => Err(()),
                    }
                } else {
                    lum_from(ev, i + 1, depth + 1, m, o)
                }
            },
            EventView::Empty(c, n) => {
                let ln = tag_local_name(c, n);
                if bytes_are(ln, "lumMod"@) {
                    match lum_val(c, n) {
                        Ok(v) => lum_from(ev, i + 1, depth, v, o),
                        Err(_) => Err(()),
                    }
                } else if bytes_are(ln, "lumOff"@) {
                    match lum_val(c, n) {
                        Ok(v) => lum_from(ev, i + 1, depth, m, v),
                        Err(_) => Err(()),
                    }
                } else {
                    lum_from(ev, i + 1, depth, m, o)
                }
            },
            EventView::End(_) => if depth - 1 == 0 { Ok((m, o)) } else { lum_from(ev, i + 1, depth - 1, m, o) },
            EventView::Eof => Ok((m, o)),
            EventView::Error => Ok((m, o)),
            _ => lum_from(ev, i + 1, depth, m, o),
        }
    }
}

/// The luminance modifiers of a theme color: `lumMod` and `lumOff` read from the content
/// that follows the color element's start tag, up to the end tag that closes it.
pub open spec fn lum_values_read(xml: Seq<u8>) -> Result<(Option<i64>, Option<i64>), ()> {
    lum_from(xml_events(xml), 0, 1, None, None)
}

pub(crate) fn lum_val_exec(c: &Vec<u8>, n: usize) -> (r: Result<Option<i64>, ()>)
    ensures
        r == lum_val(c@, n),
{
    match crate::shapes::parse::attr_exec(c, n, "val") {
        Ok(Some(t)) => Ok(crate::scan::parse_i64_text(t.as_str())),
        Ok(None) => Ok(None),
        Err(_) => Err(()),
    }
}

/// Reads the luminance modifiers from a reader that stands at position `i0` of `ev`, inside
/// one open element (see `lum_from`).
#[verifier::rlimit(30)]
pub(crate) fn lum_continue(reader: &mut quick_xml::Reader<&[u8]>, Ghost(ev): Ghost<Seq<EventView>>, Ghost(i0): Ghost<int>) -> (r: Result<(Option<i64>, Option<i64>), ()>)
    requires
        0 < ev.len() <= usize::MAX + 1,
        is_final(ev.last()),
        forall|k: int| 0 <= k < ev.len() - 1 ==> !is_final(#[trigger] ev[k]),
        0 <= i0 < ev.len(),
        reader_events(*old(reader)) == ev.subrange(i0, ev.len() as int),
    ensures
        r == lum_from(ev, i0, 1, None, None),
{
    let ghost mut i: int = i0;
    let mut depth: u128 = 1;
    let mut m: Option<i64> = None;
    let mut o: Option<i64> = None;
    loop
        invariant
            0 < ev.len() <= usize::MAX + 1,
            is_final(ev.last()),
            forall|k: int| 0 <= k < ev.len() - 1 ==> !is_final(#[trigger] ev[k]),
            i0 <= i < ev.len(),
            1 <= depth <= i - i0 + 1,
            i0 >= 0,
            reader_events(*reader) == ev.subrange(i, ev.len() as int),
            lum_from(ev, i0, 1, None, None) == lum_from(ev, i, depth as int, m, o),
        decreases ev.len() - i,
    {
        let e = next_event(reader);
        proof {
            if i < ev.len() - 1 {
                assert(ev.subrange(i, ev.len() as int).drop_first() == ev.subrange(i + 1, ev.len() as int));
            }
        }
        match e {
            XmlEvent::Start(c, k) => {
                assert(i < ev.len() - 1) by {
                    if i == ev.len() - 1 {
                        assert(ev.last() == ev[i]);
                    }
                }
                let ln = tag_local(c.as_slice(), k);
                if bytes_equal_str(ln.as_slice(), "lumMod") {
                    match lum_val_exec(&c, k) {
                        Ok(v) => { m = v; },
                        Err(_) => { return Err(()); },
                    }
                } else if bytes_equal_str(ln.as_slice(), "lumOff") {
                    match lum_val_exec(&c, k) {
                        Ok(v) => { o = v; },
                        Err(_) => { return Err(()); },
                    }
                }
                depth = depth + 1;
            },
            XmlEvent::Empty(c, k) => {
                let ln = tag_local(c.as_slice(), k);
                if bytes_equal_str(ln.as_slice(), "lumMod") {
                    match lum_val_exec(&c, k) {
                        Ok(v) => { m = v; },
                        Err(_) => { return Err(()); },
                    }
                } else if bytes_equal_str(ln.as_slice(), "lumOff") {
                    match lum_val_exec(&c, k) {
                        Ok(v) => { o = v; },
                        Err(_) => { return Err(()); },
                    }
                }
            },
            XmlEvent::End(_) => {
                depth = depth - 1;
                if depth == 0 {
                    return Ok((m, o));
                }
            },
            XmlEvent::Eof | XmlEvent::Error => {
                return Ok((m, o));
            },
            XmlEvent::Text(_) | XmlEvent::Ref(_) | XmlEvent::Other => {},
        }
        assert(i < ev.len() - 1) by {
            if i == ev.len() - 1 {
                assert(ev.last() == ev[i]);
            }
        }
        proof { i = i + 1; }
    }
}

/// Reads the luminance modifiers (`lumMod`, `lumOff`, in 100000ths) of a theme color from
/// the XML that follows the color element's start tag (see `lum_values_read`); an error
/// (`PptxError::MalformedAttribute`) when a `val` attribute is refused.
pub fn theme_lum_values(xml: &[u8]) -> (r: Result<(Option<i64>, Option<i64>), PptxError>)
    ensures
        match lum_values_read(xml@) {
            Ok(v) => r == Ok::<(Option<i64>, Option<i64>), PptxError>(v),
            Err(_) => r == Err::<(Option<i64>, Option<i64>), PptxError>(PptxError::MalformedAttribute),
        },
{
    let mut reader = xml_reader(xml);
    let ghost ev = xml_events(xml@);
    assert(ev.subrange(0, ev.len() as int) == ev);
    let n = xml.len();
    assert(ev.len() <= n + 1);
    match lum_continue(&mut reader, Ghost(ev), Ghost(0)) {
        Ok(v) => Ok(v),
        Err(_) => Err(PptxError::MalformedAttribute),
    }
}

/// The brightness that a theme colour's luminance modifiers stand for, in 100000ths: a
/// positive `lumOff` beside a `lumMod` is a tint (the brightness is the offset); a `lumMod`
/// below 100000 alone is a shade (the brightness is `lumMod - 100000`, below zero); any
/// other combination sets no brightness.
pub open spec fn brightness_of(lum_mod: Option<i64>, lum_off: Option<i64>) -> Option<int> {
    match (lum_mod, lum_off) {
        (Some(_), Some(o)) => if o > 0 { Some(o as int) } else { None },
        (Some(m), None) => if m < 100000 { Some(m - 100000) } else { None },
        _ => None,
    }
}

/// The value of an optional wide number.
pub open spec fn opt_wide(v: Option<i128>) -> Option<int> {
    match v {
        Some(x) => Some(x as int),
        None => None,
    }
}

/// Turns `lumMod` / `lumOff` modifiers into a brightness (see `brightness_of`), in 100000ths;
/// the result is wide enough for any pair of modifiers.
pub fn theme_brightness(lum_mod: Option<i64>, lum_off: Option<i64>) -> (r: Option<i128>)
    ensures
        opt_wide(r) == brightness_of(lum_mod, lum_off),
{
    match (lum_mod, lum_off) {
        (Some(_), Some(o)) => if o > 0 { Some(o as i128) } else { None },
        (Some(m), None) => if m < 100000 { Some(m as i128 - 100000) } else { None },
        _ => None,
    }
}

/// The brightness of a theme colour read from the XML that follows its start tag: the
/// modifiers of `theme_lum_values`, then `brightness_of`; an error
/// (`PptxError::MalformedAttribute`) when a `val` attribute is refused.
pub fn theme_brightness_from_xml(xml: &[u8]) -> (r: Result<Option<i128>, PptxError>)
    ensures
        match lum_values_read(xml@) {
            Ok((m, o)) => r matches Ok(b) && opt_wide(b) == brightness_of(m, o),
            Err(_) => r == Err::<Option<i128>, PptxError>(PptxError::MalformedAttribute),
        },
{
    let (m, o) = theme_lum_values(xml)?;
    Ok(theme_brightness(m, o))
}

} // verus!
