//! Print settings and handout layout configuration (`<p:prnPr>`).
use vstd::prelude::*;
use vstd::string::StringSliceAdditionalSpecFns;
use crate::enums::{
    HandoutLayout, PrintColorMode, PrintOrientation, PrintWhat, color_mode_from_token, color_mode_token,
    handout_from_token, handout_token, orientation_from_token, orientation_token, print_what_from_token,
    print_what_token,
};
use crate::error::PptxError;
use crate::text::string_push_str;
use crate::xml::{attr_value, tag_name_len};

verus! {

/// Print settings for a presentation; maps to the `<p:prnPr>` element in presentation.xml.
#[derive(Debug, Clone, PartialEq, Eq, Structural)]
pub struct PrintSettings {
    /// How the presentation should be printed with respect to color.
    pub color_mode: PrintColorMode,
    /// What content to print.
    pub print_what: PrintWhat,
    /// The handout layout (slides per page), used when `print_what` is `Handouts`.
    pub handout_layout: Option<HandoutLayout>,
    /// The print orientation.
    pub orientation: PrintOrientation,
    /// Whether to frame slides when printing.
    pub frame_slides: bool,
}

/// The defaults: color, slides, no handout layout, portrait, no frames.
pub open spec fn default_settings() -> PrintSettings {
    PrintSettings {
        color_mode: PrintColorMode::Color,
        print_what: PrintWhat::Slides,
        handout_layout: None,
        orientation: PrintOrientation::Portrait,
        frame_slides: false,
    }
}

/// The value written for `prnWhat`: the handout layout when set, otherwise the
/// print-what token unless it is the default `slides`.
pub open spec fn written_prn_what(s: PrintSettings) -> Option<Seq<char>> {
    match s.handout_layout {
        Some(l) => Some(handout_token(l)),
        None => if s.print_what != PrintWhat::Slides { Some(print_what_token(s.print_what)) } else { None },
    }
}

/// The value written for `clrMode`: present unless the mode is the default color.
pub open spec fn written_clr_mode(s: PrintSettings) -> Option<Seq<char>> {
    if s.color_mode != PrintColorMode::Color { Some(color_mode_token(s.color_mode)) } else { None }
}

/// The value written for `orient`: present unless the orientation is the default portrait.
pub open spec fn written_orient(s: PrintSettings) -> Option<Seq<char>> {
    if s.orientation != PrintOrientation::Portrait { Some(orientation_token(s.orientation)) } else { None }
}

/// The value written for `frameSlides`: `1` when slides are framed.
pub open spec fn written_frame(s: PrintSettings) -> Option<Seq<char>> {
    if s.frame_slides { Some("1"@) } else { None }
}

/// ` key="value"` for a present value, nothing otherwise.
pub open spec fn opt_attr(key: Seq<char>, v: Option<Seq<char>>) -> Seq<char> {
    match v {
        Some(v) => " "@ + key + "=\""@ + v + "\""@,
        None => Seq::empty(),
    }
}

/// The `<p:prnPr …/>` element written for print settings.
pub open spec fn print_settings_xml(s: PrintSettings) -> Seq<char> {
    "<p:prnPr"@ + opt_attr("prnWhat"@, written_prn_what(s)) + opt_attr("clrMode"@, written_clr_mode(s))
        + opt_attr("orient"@, written_orient(s)) + opt_attr("frameSlides"@, written_frame(s)) + "/>"@
}

/// Settings read from the attribute values of a `<p:prnPr>` element: each recognised value
/// replaces the default; a `handoutsN` value of `prnWhat` sets the handout layout and
/// makes the content `Handouts`; `frameSlides` is true for `1` or `true`.
pub open spec fn settings_from_attrs(
    clr_mode: Option<Seq<char>>,
    prn_what: Option<Seq<char>>,
    orient: Option<Seq<char>>,
    frame: Option<Seq<char>>,
) -> PrintSettings {
    let d = default_settings();
    let color_mode = match clr_mode {
        Some(v) => match color_mode_from_token(v) { Some(m) => m, None => d.color_mode },
        None => d.color_mode,
    };
    let what0 = match prn_what {
        Some(v) => match print_what_from_token(v) { Some(w) => w, None => d.print_what },
        None => d.print_what,
    };
    let layout = match prn_what {
        Some(v) => handout_from_token(v),
        None => None,
    };
    let print_what = if layout is Some { PrintWhat::Handouts } else { what0 };
    let orientation = match orient {
        Some(v) => match orientation_from_token(v) { Some(o) => o, None => d.orientation },
        None => d.orientation,
    };
    let frame_slides = match frame {
        Some(v) => v == "1"@ || v == "true"@,
        None => false,
    };
    PrintSettings { color_mode, print_what, handout_layout: layout, orientation, frame_slides }
}

/// What reading print settings from the content of a `<p:prnPr>` tag gives: the settings
/// from the four attributes the XML reader reports, or `MalformedAttribute` when it
/// refuses one.
pub open spec fn settings_from_element(element: Seq<char>) -> Result<PrintSettings, PptxError> {
    let n = crate::xml::tag_name_len_spec(vstd::utf8::encode_utf8(element));
    let c = crate::xml::xml_attr_lookup(element, n, "clrMode"@);
    let w = crate::xml::xml_attr_lookup(element, n, "prnWhat"@);
    let o = crate::xml::xml_attr_lookup(element, n, "orient"@);
    let f = crate::xml::xml_attr_lookup(element, n, "frameSlides"@);
    match (c, w, o, f) {
        (Ok(c), Ok(w), Ok(o), Ok(f)) => Ok(settings_from_attrs(c, w, o, f)),
        _ => Err(PptxError::MalformedAttribute),
    }
}

fn write_opt_attr(out: &mut String, key: &str, v: Option<&'static str>)
    ensures
        final(out)@ == old(out)@ + opt_attr(key@, crate::shapes::action::opt_str_view(v)),
{
    match v {
        Some(s) => {
            string_push_str(out, " ");
            string_push_str(out, key);
            string_push_str(out, "=\"");
            string_push_str(out, s);
            string_push_str(out, "\"");
        },
        None => {},
    }
    assert(out@ =~= old(out)@ + opt_attr(key@, crate::shapes::action::opt_str_view(v)));
}

impl Default for PrintSettings {
    /// The default print settings (see `PrintSettings::new`).
    fn default() -> (r: Self)
        ensures
            r == default_settings(),
    {
        PrintSettings::new()
    }
}

impl PrintSettings {
    /// Create new print settings with the defaults: color, slides, no handout layout,
    /// portrait, no frames.
    pub fn new() -> (r: Self)
        ensures
            r == default_settings(),
    {
        PrintSettings {
            color_mode: PrintColorMode::Color,
            print_what: PrintWhat::Slides,
            handout_layout: None,
            orientation: PrintOrientation::Portrait,
            frame_slides: false,
        }
    }

    /// Set the color mode.
    pub fn with_color_mode(self, mode: PrintColorMode) -> (r: Self)
        ensures
            r == (PrintSettings { color_mode: mode, ..self }),
    {
        PrintSettings { color_mode: mode, ..self }
    }

    /// Set what content to print.
    pub fn with_print_what(self, what: PrintWhat) -> (r: Self)
        ensures
            r == (PrintSettings { print_what: what, ..self }),
    {
        PrintSettings { print_what: what, ..self }
    }

    /// Set the handout layout (slides per page).
    pub fn with_handout_layout(self, layout: HandoutLayout) -> (r: Self)
        ensures
            r == (PrintSettings { handout_layout: Some(layout), ..self }),
    {
        PrintSettings { handout_layout: Some(layout), ..self }
    }

    /// Set the print orientation.
    pub fn with_orientation(self, orientation: PrintOrientation) -> (r: Self)
        ensures
            r == (PrintSettings { orientation: orientation, ..self }),
    {
        PrintSettings { orientation, ..self }
    }

    /// Set whether to frame slides.
    pub fn with_frame_slides(self, frame: bool) -> (r: Self)
        ensures
            r == (PrintSettings { frame_slides: frame, ..self }),
    {
        PrintSettings { frame_slides: frame, ..self }
    }

    /// Settings from the attribute values of a `<p:prnPr>` element (each `None` when the
    /// attribute is absent).
    pub fn from_attr_values(
        clr_mode: Option<&str>,
        prn_what: Option<&str>,
        orient: Option<&str>,
        frame: Option<&str>,
    ) -> (r: Self)
        ensures
            r == settings_from_attrs(
                crate::shapes::action::opt_str_view(clr_mode),
                crate::shapes::action::opt_str_view(prn_what),
                crate::shapes::action::opt_str_view(orient),
                crate::shapes::action::opt_str_view(frame),
            ),
    {
        let mut settings = PrintSettings::new();
        if let Some(val) = clr_mode {
            if let Some(mode) = PrintColorMode::from_xml_str(val) {
                settings.color_mode = mode;
            }
        }
        if let Some(val) = prn_what {
            if let Some(what) = PrintWhat::from_xml_str(val) {
                settings.print_what = what;
            }
            if let Some(layout) = HandoutLayout::from_xml_str(val) {
                settings.handout_layout = Some(layout);
                settings.print_what = PrintWhat::Handouts;
            }
        }
        if let Some(val) = orient {
            if let Some(o) = PrintOrientation::from_xml_str(val) {
                settings.orientation = o;
            }
        }
        if let Some(val) = frame {
            settings.frame_slides = crate::enums::str_eq(val, "1") || crate::enums::str_eq(val, "true");
        }
        settings
    }

    /// Parse print settings from the content of a `<p:prnPr>` start or empty tag
    /// (the tag name followed by its attributes).
    ///
    /// Fails when the XML reader refuses one of the four attributes.
    pub fn from_xml_element(element: &str) -> (r: Result<Self, PptxError>)
        ensures
            r == settings_from_element(element@),
            ({
                let n = crate::xml::tag_name_len_spec(element.spec_bytes());
                let c = crate::xml::xml_attr_lookup(element@, n, "clrMode"@);
                let w = crate::xml::xml_attr_lookup(element@, n, "prnWhat"@);
                let o = crate::xml::xml_attr_lookup(element@, n, "orient"@);
                let f = crate::xml::xml_attr_lookup(element@, n, "frameSlides"@);
                match (c, w, o, f) {
                    (Ok(c), Ok(w), Ok(o), Ok(f)) => r == Ok::<PrintSettings, PptxError>(settings_from_attrs(c, w, o, f)),
                    _ => r == Err::<PrintSettings, PptxError>(PptxError::MalformedAttribute),
                }
            }),
    {
        let n = tag_name_len(element);
        let c = attr_value(element, n, "clrMode");
        let w = attr_value(element, n, "prnWhat");
        let o = attr_value(element, n, "orient");
        let f = attr_value(element, n, "frameSlides");
        match (c, w, o, f) {
            (Ok(c), Ok(w), Ok(o), Ok(f)) => {
                let cs = match &c { Some(s) => Some(s.as_str()), None => None };
                let ws = match &w { Some(s) => Some(s.as_str()), None => None };
                let os = match &o { Some(s) => Some(s.as_str()), None => None };
                let fs = match &f { Some(s) => Some(s.as_str()), None => None };
                Ok(Self::from_attr_values(cs, ws, os, fs))
            },
            _ => Err(PptxError::MalformedAttribute),
        }
    }

    fn prn_what_value(&self) -> (r: Option<&'static str>)
        ensures
            crate::shapes::action::opt_str_view(r) == written_prn_what(*self),
    {
        match self.handout_layout {
            Some(layout) => Some(layout.to_xml_str()),
            None => if self.print_what != PrintWhat::Slides { Some(self.print_what.to_xml_str()) } else { None },
        }
    }

    fn clr_mode_value(&self) -> (r: Option<&'static str>)
        ensures
            crate::shapes::action::opt_str_view(r) == written_clr_mode(*self),
    {
        if self.color_mode != PrintColorMode::Color { Some(self.color_mode.to_xml_str()) } else { None }
    }

    fn orient_value(&self) -> (r: Option<&'static str>)
        ensures
            crate::shapes::action::opt_str_view(r) == written_orient(*self),
    {
        if self.orientation != PrintOrientation::Portrait { Some(self.orientation.to_xml_str()) } else { None }
    }

    fn frame_value(&self) -> (r: Option<&'static str>)
        ensures
            crate::shapes::action::opt_str_view(r) == written_frame(*self),
    {
        if self.frame_slides { Some("1") } else { None }
    }

    /// Appends the `<p:prnPr …/>` element; default values are left out.
    pub fn write_xml(&self, out: &mut String)
        ensures
            final(out)@ == old(out)@ + print_settings_xml(*self),
    {
        string_push_str(out, "<p:prnPr");
        write_opt_attr(out, "prnWhat", self.prn_what_value());
        write_opt_attr(out, "clrMode", self.clr_mode_value());
        write_opt_attr(out, "orient", self.orient_value());
        write_opt_attr(out, "frameSlides", self.frame_value());
        string_push_str(out, "/>");
        assert(out@ =~= old(out)@ + print_settings_xml(*self));
    }

    /// The `<p:prnPr …/>` element as a string.
    pub fn to_xml_string(&self) -> (r: String)
        ensures
            r@ == print_settings_xml(*self),
    {
        let mut s = String::new();
        self.write_xml(&mut s);
        assert(s@ =~= print_settings_xml(*self));
        s
    }
}

proof fn lemma_color_mode_token(m: PrintColorMode)
    ensures
        color_mode_from_token(color_mode_token(m)) == Some(m),
{
    reveal_strlit("clr");
    reveal_strlit("gray");
    reveal_strlit("pureBlkWht");
    assert("clr"@.len() == 3);
    assert("gray"@.len() == 4);
    assert("pureBlkWht"@.len() == 10);
}

proof fn lemma_orientation_token(o: PrintOrientation)
    ensures
        orientation_from_token(orientation_token(o)) == Some(o),
{
    reveal_strlit("portrait");
    assert("portrait"@.len() == 8);
    reveal_strlit("landscape");
    assert("landscape"@.len() == 9);
}

proof fn lemma_print_what_token(w: PrintWhat)
    ensures
        print_what_from_token(print_what_token(w)) == Some(w),
        handout_from_token(print_what_token(w)) is None,
{
    reveal_strlit("slides");
    assert("slides"@.len() == 6);
    reveal_strlit("handouts");
    assert("handouts"@.len() == 8);
    reveal_strlit("notes");
    assert("notes"@.len() == 5);
    reveal_strlit("outline");
    assert("outline"@.len() == 7);
    reveal_strlit("handouts1");
    assert("handouts1"@.len() == 9);
    assert("handouts1"@[8] == '1');
    reveal_strlit("handouts2");
    assert("handouts2"@.len() == 9);
    assert("handouts2"@[8] == '2');
    reveal_strlit("handouts3");
    assert("handouts3"@.len() == 9);
    assert("handouts3"@[8] == '3');
    reveal_strlit("handouts4");
    assert("handouts4"@.len() == 9);
    assert("handouts4"@[8] == '4');
    reveal_strlit("handouts6");
    assert("handouts6"@.len() == 9);
    assert("handouts6"@[8] == '6');
    reveal_strlit("handouts9");
    assert("handouts9"@.len() == 9);
    assert("handouts9"@[8] == '9');
}

proof fn lemma_handout_token(l: HandoutLayout)
    ensures
        handout_from_token(handout_token(l)) == Some(l),
{
    reveal_strlit("handouts1");
    assert("handouts1"@.len() == 9);
    assert("handouts1"@[8] == '1');
    reveal_strlit("handouts2");
    assert("handouts2"@.len() == 9);
    assert("handouts2"@[8] == '2');
    reveal_strlit("handouts3");
    assert("handouts3"@.len() == 9);
    assert("handouts3"@[8] == '3');
    reveal_strlit("handouts4");
    assert("handouts4"@.len() == 9);
    assert("handouts4"@[8] == '4');
    reveal_strlit("handouts6");
    assert("handouts6"@.len() == 9);
    assert("handouts6"@[8] == '6');
    reveal_strlit("handouts9");
    assert("handouts9"@.len() == 9);
    assert("handouts9"@[8] == '9');
}

/// Reading back the attribute values that `write_xml` writes gives back the settings,
/// except that a set handout layout reads back as content `Handouts`.
pub proof fn lemma_print_settings_roundtrip(s: PrintSettings)
    ensures
        settings_from_attrs(written_clr_mode(s), written_prn_what(s), written_orient(s), written_frame(s))
            == (if s.handout_layout is Some { PrintSettings { print_what: PrintWhat::Handouts, ..s } } else { s }),
{
    lemma_color_mode_token(s.color_mode);
    lemma_orientation_token(s.orientation);
    lemma_print_what_token(s.print_what);
    if let Some(l) = s.handout_layout {
        lemma_handout_token(l);
    }
    reveal_strlit("1");
    reveal_strlit("true");
    assert("1"@.len() == 1);
}

/// Whether text has neither `<` nor `/`.
pub open spec fn clean(s: Seq<char>) -> bool {
    forall|i: int| 0 <= i < s.len() ==> s[i] != '<' && s[i] != '/'
}

proof fn lemma_clean_concat(a: Seq<char>, b: Seq<char>)
    requires
        clean(a),
        clean(b),
    ensures
        clean(a + b),
{
    assert forall|i: int| 0 <= i < (a + b).len() implies (a + b)[i] != '<' && (a + b)[i] != '/' by {
        if i < a.len() {
            assert((a + b)[i] == a[i]);
        } else {
            assert((a + b)[i] == b[i - a.len()]);
        }
    }
}

proof fn lemma_literals_clean()
    ensures
        clean(" "@),
        clean("=\""@),
        clean("\""@),
        clean("prnWhat"@),
        clean("clrMode"@),
        clean("orient"@),
        clean("frameSlides"@),
        clean("1"@),
        clean("clr"@),
        clean("gray"@),
        clean("pureBlkWht"@),
        clean("slides"@),
        clean("handouts"@),
        clean("notes"@),
        clean("outline"@),
        clean("handouts1"@),
        clean("handouts2"@),
        clean("handouts3"@),
        clean("handouts4"@),
        clean("handouts6"@),
        clean("handouts9"@),
        clean("portrait"@),
        clean("landscape"@),
{
    reveal_strlit(" ");
    assert(" "@ =~= seq![' ']);
    assert(clean(" "@));
    reveal_strlit("=\"");
    assert("=\""@ =~= seq!['=', '"']);
    assert(clean("=\""@));
    reveal_strlit("\"");
    assert("\""@ =~= seq!['"']);
    assert(clean("\""@));
    reveal_strlit("prnWhat");
    assert("prnWhat"@ =~= seq!['p', 'r', 'n', 'W', 'h', 'a', 't']);
    assert(clean("prnWhat"@));
    reveal_strlit("clrMode");
    assert("clrMode"@ =~= seq!['c', 'l', 'r', 'M', 'o', 'd', 'e']);
    assert(clean("clrMode"@));
    reveal_strlit("orient");
    assert("orient"@ =~= seq!['o', 'r', 'i', 'e', 'n', 't']);
    assert(clean("orient"@));
    reveal_strlit("frameSlides");
    assert("frameSlides"@ =~= seq!['f', 'r', 'a', 'm', 'e', 'S', 'l', 'i', 'd', 'e', 's']);
    assert(clean("frameSlides"@));
    reveal_strlit("1");
    assert("1"@ =~= seq!['1']);
    assert(clean("1"@));
    reveal_strlit("clr");
    assert("clr"@ =~= seq!['c', 'l', 'r']);
    assert(clean("clr"@));
    reveal_strlit("gray");
    assert("gray"@ =~= seq!['g', 'r', 'a', 'y']);
    assert(clean("gray"@));
    reveal_strlit("pureBlkWht");
    assert("pureBlkWht"@ =~= seq!['p', 'u', 'r', 'e', 'B', 'l', 'k', 'W', 'h', 't']);
    assert(clean("pureBlkWht"@));
    reveal_strlit("slides");
    assert("slides"@ =~= seq!['s', 'l', 'i', 'd', 'e', 's']);
    assert(clean("slides"@));
    reveal_strlit("handouts");
    assert("handouts"@ =~= seq!['h', 'a', 'n', 'd', 'o', 'u', 't', 's']);
    assert(clean("handouts"@));
    reveal_strlit("notes");
    assert("notes"@ =~= seq!['n', 'o', 't', 'e', 's']);
    assert(clean("notes"@));
    reveal_strlit("outline");
    assert("outline"@ =~= seq!['o', 'u', 't', 'l', 'i', 'n', 'e']);
    assert(clean("outline"@));
    reveal_strlit("handouts1");
    assert("handouts1"@ =~= seq!['h', 'a', 'n', 'd', 'o', 'u', 't', 's', '1']);
    assert(clean("handouts1"@));
    reveal_strlit("handouts2");
    assert("handouts2"@ =~= seq!['h', 'a', 'n', 'd', 'o', 'u', 't', 's', '2']);
    assert(clean("handouts2"@));
    reveal_strlit("handouts3");
    assert("handouts3"@ =~= seq!['h', 'a', 'n', 'd', 'o', 'u', 't', 's', '3']);
    assert(clean("handouts3"@));
    reveal_strlit("handouts4");
    assert("handouts4"@ =~= seq!['h', 'a', 'n', 'd', 'o', 'u', 't', 's', '4']);
    assert(clean("handouts4"@));
    reveal_strlit("handouts6");
    assert("handouts6"@ =~= seq!['h', 'a', 'n', 'd', 'o', 'u', 't', 's', '6']);
    assert(clean("handouts6"@));
    reveal_strlit("handouts9");
    assert("handouts9"@ =~= seq!['h', 'a', 'n', 'd', 'o', 'u', 't', 's', '9']);
    assert(clean("handouts9"@));
    reveal_strlit("portrait");
    assert("portrait"@ =~= seq!['p', 'o', 'r', 't', 'r', 'a', 'i', 't']);
    assert(clean("portrait"@));
    reveal_strlit("landscape");
    assert("landscape"@ =~= seq!['l', 'a', 'n', 'd', 's', 'c', 'a', 'p', 'e']);
    assert(clean("landscape"@));
}

proof fn lemma_opt_attr_clean(key: Seq<char>, v: Option<Seq<char>>)
    requires
        clean(key),
        v matches Some(x) ==> clean(x),
    ensures
        clean(opt_attr(key, v)),
{
    lemma_literals_clean();
    if let Some(x) = v {
        lemma_clean_concat(" "@, key);
        lemma_clean_concat(" "@ + key, "=\""@);
        lemma_clean_concat(" "@ + key + "=\""@, x);
        lemma_clean_concat(" "@ + key + "=\""@ + x, "\""@);
    }
}

/// The element written for print settings is one empty-element `<p:prnPr …/>` tag with no
/// other `<` and no other `/`.
pub proof fn lemma_settings_xml_element(s: PrintSettings)
    ensures
        crate::edit::empty_element_of(print_settings_xml(s), "p:prnPr"@),
        crate::edit::plain_name("p:prnPr"@),
{
    lemma_literals_clean();
    let a = opt_attr("prnWhat"@, written_prn_what(s)) + opt_attr("clrMode"@, written_clr_mode(s))
        + opt_attr("orient"@, written_orient(s)) + opt_attr("frameSlides"@, written_frame(s));
    lemma_opt_attr_clean("prnWhat"@, written_prn_what(s));
    lemma_opt_attr_clean("clrMode"@, written_clr_mode(s));
    lemma_opt_attr_clean("orient"@, written_orient(s));
    lemma_opt_attr_clean("frameSlides"@, written_frame(s));
    lemma_clean_concat(opt_attr("prnWhat"@, written_prn_what(s)), opt_attr("clrMode"@, written_clr_mode(s)));
    lemma_clean_concat(
        opt_attr("prnWhat"@, written_prn_what(s)) + opt_attr("clrMode"@, written_clr_mode(s)),
        opt_attr("orient"@, written_orient(s)),
    );
    lemma_clean_concat(
        opt_attr("prnWhat"@, written_prn_what(s)) + opt_attr("clrMode"@, written_clr_mode(s)) + opt_attr("orient"@, written_orient(s)),
        opt_attr("frameSlides"@, written_frame(s)),
    );
    reveal_strlit("<p:prnPr");
    reveal_strlit("/>");
    reveal_strlit("p:prnPr");
    let x = print_settings_xml(s);
    let o = crate::edit::open_tag("p:prnPr"@);
    assert(o =~= "<p:prnPr"@);
    assert(x =~= "<p:prnPr"@ + a + "/>"@);
    assert(x.subrange(0, o.len() as int) =~= o);
    assert forall|i: int| 0 < i < x.len() implies x[i] != '<' by {
        if i < 8 {
            assert(x[i] == "<p:prnPr"@[i]);
        } else if i < 8 + a.len() {
            assert(x[i] == a[i - 8]);
        } else {
            assert(x[i] == "/>"@[i - 8 - a.len()]);
        }
    }
    assert forall|i: int| 0 <= i < x.len() - 2 implies x[i] != '/' by {
        if i < 8 {
            assert(x[i] == "<p:prnPr"@[i]);
        } else {
            assert(x[i] == a[i - 8]);
        }
    }
    assert(x[x.len() - 2] == '/' && x[x.len() - 1] == '>');
}

} // verus!
