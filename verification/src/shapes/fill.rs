//! Fills and outlines of shapes (`<a:solidFill>`, `<a:gradFill>`, `<a:noFill>`,
//! `<a:grpFill>`, `<a:ln>`) and the readers that build them from `<p:spPr>` fragments.
use vstd::prelude::*;
use crate::error::PptxError;
use crate::scan::{i64_text_value, parse_i64_text};
use crate::shapes::color::{ColorFormat, ColorView, color_tag};
use crate::theme::{lum_from, lum_val_exec};
use crate::shapes::parse::{attr_exec, attr_of};
use crate::xml::{
    EventView, XmlEvent, bytes_are, bytes_equal_str, is_final, next_event, reader_events, tag_local,
    tag_local_name, xml_events, xml_reader,
};

verus! {

/// One stop of a gradient: its position in 100000ths and its colour.
#[derive(Debug, Clone)]
pub struct GradientStop {
    pub position: i64,
    pub color: ColorFormat,
}

/// A gradient: its stops and the `ang` of its linear shading, in 60000ths of a degree
/// clockwise, as written.
#[derive(Debug, Clone)]
pub struct GradientFill {
    pub stops: Vec<GradientStop>,
    pub angle: Option<i64>,
}

/// A fill.
#[derive(Debug, Clone)]
pub enum FillFormat {
    NoFill,
    Solid(ColorFormat),
    Gradient(GradientFill),
    /// The group's fill (`<a:grpFill/>`).
    Background,
}

/// An outline: colour, width in EMU, dash token and fill.
#[derive(Debug, Clone)]
pub struct LineFormat {
    pub color: Option<ColorFormat>,
    pub width: Option<i64>,
    pub dash_style: Option<String>,
    pub fill: Option<FillFormat>,
}

/// The value of a [`FillFormat`].
pub enum FillView {
    NoFill,
    Solid(ColorView),
    Gradient(Seq<(i64, ColorView)>, Option<i64>),
    Background,
}

/// The value of a [`LineFormat`].
pub struct LineView {
    pub color: Option<ColorView>,
    pub width: Option<i64>,
    pub dash_style: Option<Seq<char>>,
    pub fill: Option<FillView>,
}

impl View for FillFormat {
    type V = FillView;

    open spec fn view(&self) -> FillView {
        match self {
            FillFormat::NoFill => FillView::NoFill,
            FillFormat::Solid(c) => FillView::Solid(c@),
            FillFormat::Gradient(g) => FillView::Gradient(
                g.stops@.map_values(|s: GradientStop| (s.position, s.color@)),
                g.angle,
            ),
            FillFormat::Background => FillView::Background,
        }
    }
}

pub open spec fn opt_fill(f: Option<FillFormat>) -> Option<FillView> {
    match f {
        Some(x) => Some(x@),
        None => None,
    }
}

pub open spec fn opt_color(c: Option<ColorFormat>) -> Option<ColorView> {
    match c {
        Some(x) => Some(x@),
        None => None,
    }
}

impl View for LineFormat {
    type V = LineView;

    open spec fn view(&self) -> LineView {
        LineView {
            color: opt_color(self.color),
            width: self.width,
            dash_style: match self.dash_style { Some(t) => Some(t@), None => None },
            fill: opt_fill(self.fill),
        }
    }
}

/// Why a fill or line could not be read.
#[derive(Clone, Copy, Debug, PartialEq, Eq, Structural)]
pub enum FillFail {
    /// An attribute that the reader refused.
    Attr,
    /// A reader error, or an element whose end never comes.
    Xml,
}

/// Whether a library error is the one that stands for a reading failure.
pub open spec fn fill_fail_is(e: PptxError, f: FillFail) -> bool {
    match f {
        FillFail::Attr => e == PptxError::MalformedAttribute,
        FillFail::Xml => e is InvalidXml,
    }
}

/// The position after the end tag that closes the element open at depth `d`, reading from
/// `i`; the position of the end of input (or error) when it comes first.
pub open spec fn skip_end(ev: Seq<EventView>, i: int, d: int) -> int
    decreases ev.len() - i,
{
    if i < 0 || i >= ev.len() || is_final(ev[i]) {
        i
    } else {
        match ev[i] {
            EventView::Start(_, _) => skip_end(ev, i + 1, d + 1),
            EventView::End(_) => if d <= 1 { i + 1 } else { skip_end(ev, i + 1, d - 1) },
            _ => skip_end(ev, i + 1, d),
        }
    }
}

/// Whether the element open at depth `d` is closed before the input ends.
pub open spec fn closes(ev: Seq<EventView>, i: int, d: int) -> bool
    decreases ev.len() - i,
{
    if i < 0 || i >= ev.len() || is_final(ev[i]) {
        false
    } else {
        match ev[i] {
            EventView::Start(_, _) => closes(ev, i + 1, d + 1),
            EventView::End(_) => if d <= 1 { true } else { closes(ev, i + 1, d - 1) },
            _ => closes(ev, i + 1, d),
        }
    }
}

/// The first colour inside the element open at depth `d` (see `color_tag`); its end, the end
/// of input or an error gives none.
pub open spec fn color_in(ev: Seq<EventView>, i: int, d: int) -> Result<Option<ColorView>, ()>
    decreases ev.len() - i,
{
    if i < 0 || i >= ev.len() || is_final(ev[i]) {
        Ok(None)
    } else {
        match ev[i] {
            EventView::Start(c, n) => match color_tag(ev, i, c, n) {
                Some(r) => r,
                None => color_in(ev, i + 1, d + 1),
            },
            EventView::Empty(c, n) => match color_tag(ev, i, c, n) {
                Some(r) => r,
                None => color_in(ev, i + 1, d),
            },
            EventView::End(_) => if d <= 1 { Ok(None) } else { color_in(ev, i + 1, d - 1) },
            _ => color_in(ev, i + 1, d),
        }
    }
}

/// The colour of the element whose start tag is at `i`, read from its content, which must be
/// closed.
pub open spec fn inner_color(ev: Seq<EventView>, i: int) -> Result<Option<ColorView>, FillFail> {
    if !closes(ev, i + 1, 1) {
        Err(FillFail::Xml)
    } else {
        match color_in(ev, i + 1, 1) {
            Ok(c) => Ok(c),
            Err(_) => Err(FillFail::Attr),
        }
    }
}

/// A number attribute `key`: its value when it is a number, else `dflt`.
pub open spec fn num_attr(c: Seq<u8>, n: usize, key: Seq<char>, dflt: Option<i64>) -> Result<Option<i64>, FillFail> {
    match attr_of(c, n, key) {
        Err(_) => Err(FillFail::Attr),
        Ok(Some(t)) => match i64_text_value(t) {
            Some(v) => Ok(Some(v)),
            None => Ok(dflt),
        },
        Ok(None) => Ok(dflt),
    }
}

/// The gradient read from the content of a `gradFill` at depth `d`: each `gs` adds a stop
/// when a colour is found in it (its `pos` is 0 when missing or unreadable); a `lin` sets
/// the angle (0 when missing or unreadable); no stop gives no gradient.
pub open spec fn gradient_in(ev: Seq<EventView>, i: int, d: int, stops: Seq<(i64, ColorView)>, angle: Option<i64>) -> Result<Option<FillView>, FillFail>
    decreases ev.len() - i,
{
    let done: Result<Option<FillView>, FillFail> = if stops.len() == 0 { Ok(None) } else { Ok(Some(FillView::Gradient(stops, angle))) };
    if i < 0 || i >= ev.len() {
        done
    } else {
        match ev[i] {
            EventView::Error => Err(FillFail::Xml),
            EventView::Eof => done,
            EventView::Start(c, n) => if bytes_are(tag_local_name(c, n), "gs"@) {
                match num_attr(c, n, "pos"@, Some(0)) {
                    Err(e) => Err(e),
                    Ok(pos) => match inner_color(ev, i) {
                        Err(e) => Err(e),
                        Ok(col) => {
                            let s2 = match col { Some(cv) => stops.push((pos.unwrap(), cv)), None => stops };
                            let j = skip_end(ev, i + 1, 1);
                            if i < j && j <= ev.len() { gradient_in(ev, j, d, s2, angle) } else { done }
                        },
                    },
                }
            } else {
                gradient_in(ev, i + 1, d + 1, stops, angle)
            },
            EventView::Empty(c, n) => if bytes_are(tag_local_name(c, n), "lin"@) {
                match num_attr(c, n, "ang"@, Some(0)) {
                    Err(e) => Err(e),
                    Ok(a) => gradient_in(ev, i + 1, d, stops, a),
                }
            } else {
                gradient_in(ev, i + 1, d, stops, angle)
            },
            EventView::End(_) => if d <= 1 { done } else { gradient_in(ev, i + 1, d - 1, stops, angle) },
            _ => gradient_in(ev, i + 1, d, stops, angle),
        }
    }
}

/// The gradient of the element whose start tag is at `i`, read from its content, which must
/// be closed.
pub open spec fn inner_gradient(ev: Seq<EventView>, i: int) -> Result<Option<FillView>, FillFail> {
    if !closes(ev, i + 1, 1) {
        Err(FillFail::Xml)
    } else {
        gradient_in(ev, i + 1, 1, Seq::empty(), None)
    }
}

/// The fill of a fragment: the first `solidFill` (its colour, or none when it has none),
/// `gradFill`, `noFill` or `grpFill` decides; a reader error fails.
pub open spec fn fill_from(ev: Seq<EventView>, i: int) -> Result<Option<FillView>, FillFail>
    decreases ev.len() - i,
{
    if i < 0 || i >= ev.len() {
        Ok(None)
    } else {
        match ev[i] {
            EventView::Error => Err(FillFail::Xml),
            EventView::Eof => Ok(None),
            EventView::Start(c, n) => {
                let ln = tag_local_name(c, n);
                if bytes_are(ln, "solidFill"@) {
                    match inner_color(ev, i) {
                        Ok(Some(col)) => Ok(Some(FillView::Solid(col))),
                        Ok(None) => Ok(None),
                        Err(e) => Err(e),
                    }
                } else if bytes_are(ln, "gradFill"@) {
                    inner_gradient(ev, i)
                } else {
                    fill_from(ev, i + 1)
                }
            },
            EventView::Empty(c, n) => {
                let ln = tag_local_name(c, n);
                if bytes_are(ln, "noFill"@) {
                    Ok(Some(FillView::NoFill))
                } else if bytes_are(ln, "grpFill"@) {
                    Ok(Some(FillView::Background))
                } else {
                    fill_from(ev, i + 1)
                }
            },
            _ => fill_from(ev, i + 1),
        }
    }
}

/// The fill of an XML fragment, read with text trimmed (see `fill_from`).
pub open spec fn fill_read(xml: Seq<u8>) -> Result<Option<FillView>, FillFail> {
    fill_from(xml_events(xml), 0)
}

/// An outline with nothing set.
pub open spec fn no_line() -> LineView {
    LineView { color: None, width: None, dash_style: None, fill: None }
}

/// The outline read so far, when anything is set.
pub open spec fn line_result(st: LineView) -> Option<LineView> {
    if st.width is Some || st.color is Some || st.dash_style is Some || st.fill is Some { Some(st) } else { None }
}

/// Reading an outline from `i`: an `ln` start tag sets the width (none when missing or not a
/// number); a `solidFill` sets colour and fill from its content; `prstDash` sets the dash
/// token; `noFill` sets the fill. When `bounded`, the end tag that closes depth `d` ends
/// reading; the end of input always does, and a reader error fails.
pub open spec fn line_in(ev: Seq<EventView>, i: int, d: int, bounded: bool, st: LineView) -> Result<Option<LineView>, FillFail>
    decreases ev.len() - i,
{
    if i < 0 || i >= ev.len() {
        Ok(line_result(st))
    } else {
        match ev[i] {
            EventView::Error => Err(FillFail::Xml),
            EventView::Eof => Ok(line_result(st)),
            EventView::Start(c, n) => {
                let ln = tag_local_name(c, n);
                if bytes_are(ln, "ln"@) {
                    match num_attr(c, n, "w"@, None) {
                        Err(e) => Err(e),
                        Ok(w) => line_in(ev, i + 1, d + 1, bounded, LineView { width: w, ..st }),
                    }
                } else if bytes_are(ln, "solidFill"@) {
                    match inner_color(ev, i) {
                        Err(e) => Err(e),
                        Ok(col) => {
                            let s2 = match col {
                                Some(cv) => LineView { color: Some(cv), fill: Some(FillView::Solid(cv)), ..st },
                                None => st,
                            };
                            let j = skip_end(ev, i + 1, 1);
                            if i < j && j <= ev.len() { line_in(ev, j, d, bounded, s2) } else { Ok(line_result(s2)) }
                        },
                    }
                } else {
                    line_in(ev, i + 1, d + 1, bounded, st)
                }
            },
            EventView::Empty(c, n) => {
                let ln = tag_local_name(c, n);
                if bytes_are(ln, "prstDash"@) {
                    match attr_of(c, n, "val"@) {
                        Err(_) => Err(FillFail::Attr),
                        Ok(v) => line_in(ev, i + 1, d, bounded, LineView { dash_style: v, ..st }),
                    }
                } else if bytes_are(ln, "noFill"@) {
                    line_in(ev, i + 1, d, bounded, LineView { fill: Some(FillView::NoFill), ..st })
                } else {
                    line_in(ev, i + 1, d, bounded, st)
                }
            },
            EventView::End(_) => if bounded && d <= 1 { Ok(line_result(st)) } else { line_in(ev, i + 1, if d > 0 { d - 1 } else { 0 }, bounded, st) },
            _ => line_in(ev, i + 1, d, bounded, st),
        }
    }
}

/// The outline of an `<a:ln>` fragment, read with text trimmed (see `line_in`).
pub open spec fn line_read(xml: Seq<u8>) -> Result<Option<LineView>, FillFail> {
    line_in(xml_events(xml), 0, 0, false, no_line())
}


/// The fill and outline of a `<p:spPr>` fragment: a `solidFill` or `gradFill` at depth 2 or
/// less sets the fill, an `ln` at any depth sets the outline (read from its content, with
/// its `w`), a `noFill` or `grpFill` at depth 1 or less sets the fill. An element whose
/// content was read is not counted as closed, as the reader it imitates does.
pub open spec fn sp_pr_from(ev: Seq<EventView>, i: int, depth: int, fill: Option<FillView>, line: Option<LineView>) -> Result<(Option<FillView>, Option<LineView>), FillFail>
    decreases ev.len() - i,
{
    if i < 0 || i >= ev.len() {
        Ok((fill, line))
    } else {
        match ev[i] {
            EventView::Error => Err(FillFail::Xml),
            EventView::Eof => Ok((fill, line)),
            EventView::Start(c, n) => {
                let dd = depth + 1;
                let ln = tag_local_name(c, n);
                let j = skip_end(ev, i + 1, 1);
                if bytes_are(ln, "solidFill"@) && dd <= 2 {
                    match inner_color(ev, i) {
                        Err(e) => Err(e),
                        Ok(col) => {
                            let f2 = match col { Some(cv) => Some(FillView::Solid(cv)), None => fill };
                            if i < j && j <= ev.len() { sp_pr_from(ev, j, dd, f2, line) } else { Ok((f2, line)) }
                        },
                    }
                } else if bytes_are(ln, "gradFill"@) && dd <= 2 {
                    match inner_gradient(ev, i) {
                        Err(e) => Err(e),
                        Ok(g) => if i < j && j <= ev.len() { sp_pr_from(ev, j, dd, g, line) } else { Ok((g, line)) },
                    }
                } else if bytes_are(ln, "ln"@) {
                    match num_attr(c, n, "w"@, None) {
                        Err(e) => Err(e),
                        Ok(w) => if !closes(ev, i + 1, 1) {
                            Err(FillFail::Xml)
                        } else {
                            match line_in(ev, i + 1, 1, true, LineView { width: w, ..no_line() }) {
                                Err(e) => Err(e),
                                Ok(l) => if i < j && j <= ev.len() { sp_pr_from(ev, j, dd, fill, l) } else { Ok((fill, l)) },
                            }
                        },
                    }
                } else {
                    sp_pr_from(ev, i + 1, dd, fill, line)
                }
            },
            EventView::Empty(c, n) => {
                let ln = tag_local_name(c, n);
                if bytes_are(ln, "noFill"@) && depth <= 1 {
                    sp_pr_from(ev, i + 1, depth, Some(FillView::NoFill), line)
                } else if bytes_are(ln, "grpFill"@) && depth <= 1 {
                    sp_pr_from(ev, i + 1, depth, Some(FillView::Background), line)
                } else {
                    sp_pr_from(ev, i + 1, depth, fill, line)
                }
            },
            EventView::End(_) => sp_pr_from(ev, i + 1, if depth > 0 { depth - 1 } else { 0 }, fill, line),
            _ => sp_pr_from(ev, i + 1, depth, fill, line),
        }
    }
}

/// The fill and outline of a `<p:spPr>` fragment, read with text trimmed (see `sp_pr_from`).
pub open spec fn sp_pr_read(xml: Seq<u8>) -> Result<(Option<FillView>, Option<LineView>), FillFail> {
    sp_pr_from(xml_events(xml), 0, 0, None, None)
}

/// The values of collected events.
pub open spec fn evs_view(v: Seq<XmlEvent>) -> Seq<EventView> {
    v.map_values(|e: XmlEvent| e@)
}

/// Whether a tag's name length lies within its content.
pub open spec fn tag_ok(e: EventView) -> bool {
    match e {
        EventView::Start(c, n) => n <= c.len(),
        EventView::Empty(c, n) => n <= c.len(),
        _ => true,
    }
}

/// Events as the reader hands them out: at least one, the last one final, no other one, and
/// every tag's name within its content.
pub open spec fn events_ok(ev: Seq<EventView>) -> bool {
    &&& 0 < ev.len() <= usize::MAX
    &&& is_final(ev.last())
    &&& forall|k: int| 0 <= k < ev.len() - 1 ==> !is_final(#[trigger] ev[k])
    &&& forall|k: int| 0 <= k < ev.len() ==> tag_ok(#[trigger] ev[k])
}

/// All the events of `xml` (see `xml_events`), collected.
fn collect_events(xml: &[u8]) -> (v: Vec<XmlEvent>)
    requires
        xml@.len() < usize::MAX,
    ensures
        evs_view(v@) == xml_events(xml@),
        events_ok(evs_view(v@)),
{
    let n = xml.len();
    let mut reader = xml_reader(xml);
    let ghost ev = xml_events(xml@);
    let mut v: Vec<XmlEvent> = Vec::new();
    let ghost mut i: int = 0;
    loop
        invariant
            ev == xml_events(xml@),
            0 < ev.len() <= n + 1,
            n < usize::MAX,
            is_final(ev.last()),
            forall|k: int| 0 <= k < ev.len() - 1 ==> !is_final(#[trigger] ev[k]),
            0 <= i < ev.len(),
            v@.len() == i,
            evs_view(v@) == ev.take(i),
            forall|k: int| 0 <= k < i ==> tag_ok(#[trigger] ev[k]),
            reader_events(reader) == ev.subrange(i, ev.len() as int),
        decreases ev.len() - i,
    {
        let e = next_event(&mut reader);
        proof {
            if i < ev.len() - 1 {
                assert(ev.subrange(i, ev.len() as int).drop_first() == ev.subrange(i + 1, ev.len() as int));
            }
        }
        assert(e@ == ev[i]);
        assert(tag_ok(ev[i]));
        let fin = match e { XmlEvent::Eof | XmlEvent::Error => true, _ => false };
        let ghost ev_e = e@;
        v.push(e);
        assert(evs_view(v@) =~= ev.take(i + 1));
        if fin {
            assert(i == ev.len() - 1);
            assert(ev.take(i + 1) =~= ev);
            return v;
        }
        assert(i < ev.len() - 1) by {
            if i == ev.len() - 1 {
                assert(ev.last() == ev[i]);
            }
        }
        proof { i = i + 1; }
    }
}

/// See `skip_end`.
fn skip_end_exec(evs: &Vec<XmlEvent>, i: usize, d: usize) -> (r: usize)
    requires
        events_ok(evs_view(evs@)),
        i < evs@.len(),
        d <= i + 1,
    ensures
        r as int == skip_end(evs_view(evs@), i as int, d as int),
        i <= r < evs@.len(),
{
    let ghost ev = evs_view(evs@);
    let mut j: usize = i;
    let mut dd: usize = d;
    while j < evs.len()
        invariant
            events_ok(ev),
            ev == evs_view(evs@),
            i <= j < evs@.len(),
            dd <= j + 1,
            skip_end(ev, i as int, d as int) == skip_end(ev, j as int, dd as int),
        decreases evs.len() - j,
    {
        assert(evs@[j as int]@ == ev[j as int]);
        match &evs[j] {
            XmlEvent::Eof | XmlEvent::Error => { return j; },
            XmlEvent::Start(_, _) => {
                assert(j < ev.len() - 1);
                dd = dd + 1;
            },
            XmlEvent::End(_) => {
                if dd <= 1 {
                    assert(j < ev.len() - 1);
                    return j + 1;
                }
                dd = dd - 1;
            },
            _ => {},
        }
        assert(j < ev.len() - 1) by {
            if j == ev.len() - 1 { assert(ev.last() == ev[j as int]); }
        }
        j = j + 1;
    }
    j
}

/// See `closes`.
fn closes_exec(evs: &Vec<XmlEvent>, i: usize, d: usize) -> (r: bool)
    requires
        events_ok(evs_view(evs@)),
        i < evs@.len(),
        d <= i + 1,
    ensures
        r == closes(evs_view(evs@), i as int, d as int),
{
    let ghost ev = evs_view(evs@);
    let mut j: usize = i;
    let mut dd: usize = d;
    while j < evs.len()
        invariant
            events_ok(ev),
            ev == evs_view(evs@),
            i <= j < evs@.len(),
            dd <= j + 1,
            closes(ev, i as int, d as int) == closes(ev, j as int, dd as int),
        decreases evs.len() - j,
    {
        assert(evs@[j as int]@ == ev[j as int]);
        match &evs[j] {
            XmlEvent::Eof | XmlEvent::Error => { return false; },
            XmlEvent::Start(_, _) => {
                assert(j < ev.len() - 1);
                dd = dd + 1;
            },
            XmlEvent::End(_) => {
                if dd <= 1 {
                    return true;
                }
                dd = dd - 1;
            },
            _ => {},
        }
        assert(j < ev.len() - 1) by {
            if j == ev.len() - 1 { assert(ev.last() == ev[j as int]); }
        }
        j = j + 1;
    }
    false
}


/// See `lum_from`, for the element open at position `i` (depth 1).
fn lum_in_exec(evs: &Vec<XmlEvent>, i: usize) -> (r: Result<(Option<i64>, Option<i64>), ()>)
    requires
        events_ok(evs_view(evs@)),
        i < evs@.len(),
    ensures
        r == lum_from(evs_view(evs@), i as int, 1, None, None),
{
    let ghost ev = evs_view(evs@);
    let mut j: usize = i;
    let mut depth: usize = 1;
    let mut m: Option<i64> = None;
    let mut o: Option<i64> = None;
    while j < evs.len()
        invariant
            events_ok(ev),
            ev == evs_view(evs@),
            i <= j < evs@.len(),
            1 <= depth <= j - i + 1,
            lum_from(ev, i as int, 1, None, None) == lum_from(ev, j as int, depth as int, m, o),
        decreases evs.len() - j,
    {
        assert(evs@[j as int]@ == ev[j as int]);
        assert(tag_ok(ev[j as int]));
        match &evs[j] {
            XmlEvent::Start(c, k) => {
                assert(j < ev.len() - 1);
                let ln = tag_local(c.as_slice(), *k);
                if bytes_equal_str(ln.as_slice(), "lumMod") {
                    match lum_val_exec(c, *k) {
                        Ok(v) => { m = v; },
                        Err(_) => { return Err(()); },
                    }
                } else if bytes_equal_str(ln.as_slice(), "lumOff") {
                    match lum_val_exec(c, *k) {
                        Ok(v) => { o = v; },
                        Err(_) => { return Err(()); },
                    }
                }
                depth = depth + 1;
            },
            XmlEvent::Empty(c, k) => {
                let ln = tag_local(c.as_slice(), *k);
                if bytes_equal_str(ln.as_slice(), "lumMod") {
                    match lum_val_exec(c, *k) {
                        Ok(v) => { m = v; },
                        Err(_) => { return Err(()); },
                    }
                } else if bytes_equal_str(ln.as_slice(), "lumOff") {
                    match lum_val_exec(c, *k) {
                        Ok(v) => { o = v; },
                        Err(_) => { return Err(()); },
                    }
                }
            },
            XmlEvent::End(_) => {
                depth = depth - 1;
                if depth == 0 {
                    return Ok((m, o));
                }
            },
            XmlEvent::Eof | XmlEvent::Error => {
                return Ok((m, o));
            },
            _ => {},
        }
        assert(j < ev.len() - 1) by {
            if j == ev.len() - 1 { assert(ev.last() == ev[j as int]); }
        }
        j = j + 1;
    }
    Ok((m, o))
}

fn num_or_zero_of(a: &Option<String>) -> (r: i64)
    ensures
        r == crate::shapes::color::num_or_zero(match a { Some(x) => Some(x@), None => None }),
{
    match a {
        Some(t) => match parse_i64_text(t.as_str()) {
            Some(v) => v,
            None => 0,
        },
        None => 0,
    }
}

/// See `color_tag`.
#[verifier::rlimit(40)]
fn color_tag_exec(evs: &Vec<XmlEvent>, i: usize, c: &Vec<u8>, n: usize) -> (r: Option<Result<Option<ColorFormat>, ()>>)
    requires
        events_ok(evs_view(evs@)),
        i < evs@.len() - 1,
        n <= c@.len(),
    ensures
        match color_tag(evs_view(evs@), i as int, c@, n) {
            Some(Ok(Some(v))) => r matches Some(Ok(Some(x))) && x@ == v,
            Some(Ok(None)) => r matches Some(Ok(None)),
            Some(Err(_)) => r matches Some(Err(_)),
            None => r is None,
        },
{
    let ln = tag_local(c.as_slice(), n);
    if bytes_equal_str(ln.as_slice(), "srgbClr") {
        match attr_exec(c, n, "val") {
            Err(_) => Some(Err(())),
            Ok(Some(t)) => match crate::theme::parse_hex_rgb(t.as_str()) {
                Some(rgb) => Some(Ok(Some(ColorFormat::Rgb(rgb)))),
                None => None,
            },
            Ok(None) => None,
        }
    } else if bytes_equal_str(ln.as_slice(), "schemeClr") {
        match attr_exec(c, n, "val") {
            Err(_) => Some(Err(())),
            Ok(Some(t)) => match lum_in_exec(evs, i + 1) {
                Ok((m, o)) => {
                    let b = crate::theme::theme_brightness(m, o);
                    Some(Ok(Some(ColorFormat::Theme(crate::shapes::color::ThemeColor { theme_color: t, brightness: b }))))
                },
                Err(_) => Some(Err(())),
            },
            Ok(None) => None,
        }
    } else if bytes_equal_str(ln.as_slice(), "sysClr") {
        let v = match attr_exec(c, n, "val") { Ok(x) => x, Err(_) => { return Some(Err(())); } };
        let l = match attr_exec(c, n, "lastClr") { Ok(x) => x, Err(_) => { return Some(Err(())); } };
        proof { reveal_strlit("windowText"); }
        let val = match v { Some(t) => t, None => "windowText".to_owned() };
        Some(Ok(Some(ColorFormat::System(crate::shapes::color::SystemColor { val, last_color: l }))))
    } else if bytes_equal_str(ln.as_slice(), "hslClr") {
        let h = match attr_exec(c, n, "hue") { Ok(x) => x, Err(_) => { return Some(Err(())); } };
        let sa = match attr_exec(c, n, "sat") { Ok(x) => x, Err(_) => { return Some(Err(())); } };
        let l = match attr_exec(c, n, "lum") { Ok(x) => x, Err(_) => { return Some(Err(())); } };
        Some(Ok(Some(ColorFormat::Hsl(crate::shapes::color::HslColor {
            hue: num_or_zero_of(&h), sat: num_or_zero_of(&sa), lum: num_or_zero_of(&l),
        }))))
    } else if bytes_equal_str(ln.as_slice(), "prstClr") {
        let v = match attr_exec(c, n, "val") { Ok(x) => x, Err(_) => { return Some(Err(())); } };
        proof { reveal_strlit("black"); }
        let val = match v { Some(t) => t, None => "black".to_owned() };
        Some(Ok(Some(ColorFormat::Preset(val))))
    } else {
        None
    }
}

/// See `inner_color`.
#[verifier::rlimit(40)]
fn inner_color_exec(evs: &Vec<XmlEvent>, i: usize) -> (r: Result<Option<ColorFormat>, FillFail>)
    requires
        events_ok(evs_view(evs@)),
        i < evs@.len() - 1,
    ensures
        match inner_color(evs_view(evs@), i as int) {
            Ok(Some(v)) => r matches Ok(Some(x)) && x@ == v,
            Ok(None) => r matches Ok(None),
            Err(e) => r matches Err(f) && f == e,
        },
{
    let ghost ev = evs_view(evs@);
    if !closes_exec(evs, i + 1, 1) {
        return Err(FillFail::Xml);
    }
    let mut j: usize = i + 1;
    let mut d: usize = 1;
    while j < evs.len()
        invariant
            events_ok(ev),
            ev == evs_view(evs@),
            i < j < evs@.len(),
            d <= j + 1,
            closes(ev, i + 1, 1),
            color_in(ev, i + 1, 1) == color_in(ev, j as int, d as int),
        decreases evs.len() - j,
    {
        assert(evs@[j as int]@ == ev[j as int]);
        assert(tag_ok(ev[j as int]));
        match &evs[j] {
            XmlEvent::Eof | XmlEvent::Error => {
                assert(is_final(ev[j as int]));
                assert(color_in(ev, j as int, d as int) == Ok::<Option<ColorView>, ()>(None));
                return Ok(None);
            },
            XmlEvent::Start(c, k) => {
                assert(j < ev.len() - 1);
                match color_tag_exec(evs, j, c, *k) {
                    Some(Ok(x)) => { return Ok(x); },
                    Some(Err(_)) => { return Err(FillFail::Attr); },
                    None => {},
                }
                d = d + 1;
            },
            XmlEvent::Empty(c, k) => {
                assert(j < ev.len() - 1);
                match color_tag_exec(evs, j, c, *k) {
                    Some(Ok(x)) => { return Ok(x); },
                    Some(Err(_)) => { return Err(FillFail::Attr); },
                    None => {},
                }
            },
            XmlEvent::End(_) => {
                if d <= 1 {
                    return Ok(None);
                }
                d = d - 1;
            },
            _ => {},
        }
        assert(j < ev.len() - 1) by {
            if j == ev.len() - 1 { assert(ev.last() == ev[j as int]); }
        }
        j = j + 1;
    }
    Ok(None)
}

/// See `num_attr`.
fn num_attr_exec(c: &Vec<u8>, n: usize, key: &str, dflt: Option<i64>) -> (r: Result<Option<i64>, FillFail>)
    ensures
        r == num_attr(c@, n, key@, dflt),
{
    match attr_exec(c, n, key) {
        Err(_) => Err(FillFail::Attr),
        Ok(Some(t)) => match parse_i64_text(t.as_str()) {
            Some(v) => Ok(Some(v)),
            None => Ok(dflt),
        },
        Ok(None) => Ok(dflt),
    }
}

pub open spec fn stops_view(v: Seq<GradientStop>) -> Seq<(i64, ColorView)> {
    v.map_values(|s: GradientStop| (s.position, s.color@))
}

/// See `gradient_in`, from position `i0` at depth `d0`.
#[verifier::rlimit(60)]
fn gradient_in_exec(evs: &Vec<XmlEvent>, i0: usize, d0: usize) -> (r: Result<Option<FillFormat>, FillFail>)
    requires
        events_ok(evs_view(evs@)),
        i0 < evs@.len(),
        d0 <= i0 + 1,
    ensures
        match gradient_in(evs_view(evs@), i0 as int, d0 as int, Seq::empty(), None) {
            Ok(Some(v)) => r matches Ok(Some(x)) && x@ == v,
            Ok(None) => r matches Ok(None),
            Err(e) => r matches Err(f) && f == e,
        },
{
    let ghost ev = evs_view(evs@);
    let mut j: usize = i0;
    let mut d: usize = d0;
    let mut stops: Vec<GradientStop> = Vec::new();
    let mut angle: Option<i64> = None;
    assert(stops_view(stops@) =~= Seq::<(i64, ColorView)>::empty());
    while j < evs.len()
        invariant
            events_ok(ev),
            ev == evs_view(evs@),
            i0 <= j < evs@.len(),
            d <= j + 1,
            gradient_in(ev, i0 as int, d0 as int, Seq::empty(), None) == gradient_in(ev, j as int, d as int, stops_view(stops@), angle),
        decreases evs.len() - j,
    {
        assert(evs@[j as int]@ == ev[j as int]);
        assert(tag_ok(ev[j as int]));
        let ghost sv = stops_view(stops@);
        let ghost done: Result<Option<FillView>, FillFail> = if sv.len() == 0 { Ok(None) } else { Ok(Some(FillView::Gradient(sv, angle))) };
        match &evs[j] {
            XmlEvent::Error => { return Err(FillFail::Xml); },
            XmlEvent::Eof => {
                if stops.len() == 0 { return Ok(None); }
                return Ok(Some(FillFormat::Gradient(GradientFill { stops, angle })));
            },
            XmlEvent::Start(c, k) => {
                assert(j < ev.len() - 1);
                let ln = tag_local(c.as_slice(), *k);
                if bytes_equal_str(ln.as_slice(), "gs") {
                    let pos = match num_attr_exec(c, *k, "pos", Some(0)) { Ok(p) => p, Err(e) => { return Err(e); } };
                    let col = match inner_color_exec(evs, j) { Ok(x) => x, Err(e) => { return Err(e); } };
                    match col {
                        Some(cf) => {
                            let ghost old_sv = stops_view(stops@);
                            let ghost cv = cf@;
                            stops.push(GradientStop { position: pos.unwrap(), color: cf });
                            assert(stops_view(stops@) =~= old_sv.push((pos.unwrap(), cv)));
                        },
                        None => {},
                    }
                    let nj = skip_end_exec(evs, j + 1, 1);
                    if nj > j {
                        j = nj;
                        continue;
                    } else {
                        if stops.len() == 0 { return Ok(None); }
                        return Ok(Some(FillFormat::Gradient(GradientFill { stops, angle })));
                    }
                }
                d = d + 1;
            },
            XmlEvent::Empty(c, k) => {
                let ln = tag_local(c.as_slice(), *k);
                if bytes_equal_str(ln.as_slice(), "lin") {
                    angle = match num_attr_exec(c, *k, "ang", Some(0)) { Ok(a) => a, Err(e) => { return Err(e); } };
                }
            },
            XmlEvent::End(_) => {
                if d <= 1 {
                    if stops.len() == 0 { return Ok(None); }
                    return Ok(Some(FillFormat::Gradient(GradientFill { stops, angle })));
                }
                d = d - 1;
            },
            _ => {},
        }
        assert(j < ev.len() - 1) by {
            if j == ev.len() - 1 { assert(ev.last() == ev[j as int]); }
        }
        j = j + 1;
    }
    if stops.len() == 0 { return Ok(None); }
    Ok(Some(FillFormat::Gradient(GradientFill { stops, angle })))
}


/// See `inner_gradient`.
fn inner_gradient_exec(evs: &Vec<XmlEvent>, i: usize) -> (r: Result<Option<FillFormat>, FillFail>)
    requires
        events_ok(evs_view(evs@)),
        i < evs@.len() - 1,
    ensures
        match inner_gradient(evs_view(evs@), i as int) {
            Ok(Some(v)) => r matches Ok(Some(x)) && x@ == v,
            Ok(None) => r matches Ok(None),
            Err(e) => r matches Err(f) && f == e,
        },
{
    if !closes_exec(evs, i + 1, 1) {
        return Err(FillFail::Xml);
    }
    gradient_in_exec(evs, i + 1, 1)
}

/// The library error for a reading failure.
fn fill_fail_error(f: FillFail) -> (e: PptxError)
    ensures
        fill_fail_is(e, f),
{
    match f {
        FillFail::Attr => PptxError::MalformedAttribute,
        FillFail::Xml => PptxError::InvalidXml("fill or line XML could not be read".to_owned()),
    }
}

/// Reads the fill of an XML fragment such as a `<p:spPr>` (see `fill_read`):
/// `PptxError::MalformedAttribute` for a refused attribute, `PptxError::InvalidXml` for a
/// reader error or an unclosed fill element.
#[verifier::rlimit(40)]
pub fn parse_fill(xml: &[u8]) -> (r: Result<Option<FillFormat>, PptxError>)
    requires
        xml@.len() < usize::MAX,
    ensures
        match fill_read(xml@) {
            Ok(Some(v)) => r matches Ok(Some(x)) && x@ == v,
            Ok(None) => r matches Ok(None),
            Err(f) => r matches Err(e) && fill_fail_is(e, f),
        },
{
    let evs = collect_events(xml);
    let ghost ev = evs_view(evs@);
    let mut j: usize = 0;
    while j < evs.len()
        invariant
            events_ok(ev),
            ev == evs_view(evs@),
            j < evs@.len(),
            ev == xml_events(xml@),
            fill_from(ev, 0) == fill_from(ev, j as int),
        decreases evs.len() - j,
    {
        assert(evs@[j as int]@ == ev[j as int]);
        assert(tag_ok(ev[j as int]));
        match &evs[j] {
            XmlEvent::Error => { return Err(fill_fail_error(FillFail::Xml)); },
            XmlEvent::Eof => { return Ok(None); },
            XmlEvent::Start(c, k) => {
                assert(j < ev.len() - 1);
                let ln = tag_local(c.as_slice(), *k);
                if bytes_equal_str(ln.as_slice(), "solidFill") {
                    return match inner_color_exec(&evs, j) {
                        Ok(Some(col)) => Ok(Some(FillFormat::Solid(col))),
                        Ok(None) => Ok(None),
                        Err(f) => Err(fill_fail_error(f)),
                    };
                } else if bytes_equal_str(ln.as_slice(), "gradFill") {
                    return match inner_gradient_exec(&evs, j) {
                        Ok(g) => Ok(g),
                        Err(f) => Err(fill_fail_error(f)),
                    };
                }
            },
            XmlEvent::Empty(c, k) => {
                let ln = tag_local(c.as_slice(), *k);
                if bytes_equal_str(ln.as_slice(), "noFill") {
                    return Ok(Some(FillFormat::NoFill));
                } else if bytes_equal_str(ln.as_slice(), "grpFill") {
                    return Ok(Some(FillFormat::Background));
                }
            },
            _ => {},
        }
        assert(j < ev.len() - 1) by {
            if j == ev.len() - 1 { assert(ev.last() == ev[j as int]); }
        }
        j = j + 1;
    }
    Ok(None)
}

/// Reads a gradient from the content of a `<a:gradFill>` (see `gradient_in`, from depth 1).
pub fn parse_gradient(inner: &[u8]) -> (r: Result<Option<FillFormat>, PptxError>)
    requires
        inner@.len() < usize::MAX,
    ensures
        match gradient_in(xml_events(inner@), 0, 1, Seq::empty(), None) {
            Ok(Some(v)) => r matches Ok(Some(x)) && x@ == v,
            Ok(None) => r matches Ok(None),
            Err(f) => r matches Err(e) && fill_fail_is(e, f),
        },
{
    let evs = collect_events(inner);
    match gradient_in_exec(&evs, 0, 1) {
        Ok(g) => Ok(g),
        Err(f) => Err(fill_fail_error(f)),
    }
}

/// A copy of a colour.
fn copy_color(c: &ColorFormat) -> (r: ColorFormat)
    ensures
        r@ == c@,
{
    match c {
        ColorFormat::Rgb(x) => ColorFormat::Rgb(*x),
        ColorFormat::Theme(t) => ColorFormat::Theme(crate::shapes::color::ThemeColor {
            theme_color: t.theme_color.clone(),
            brightness: t.brightness,
        }),
        ColorFormat::System(x) => ColorFormat::System(crate::shapes::color::SystemColor {
            val: x.val.clone(),
            last_color: match &x.last_color { Some(l) => Some(l.clone()), None => None },
        }),
        ColorFormat::Hsl(h) => ColorFormat::Hsl(*h),
        ColorFormat::Preset(p) => ColorFormat::Preset(p.clone()),
    }
}

fn line_result_exec(st: LineFormat) -> (r: Option<LineFormat>)
    ensures
        match line_result(st@) {
            Some(v) => r matches Some(x) && x@ == v,
            None => r is None,
        },
{
    if st.width.is_some() || st.color.is_some() || st.dash_style.is_some() || st.fill.is_some() {
        Some(st)
    } else {
        None
    }
}

/// See `line_in`, from position `i0` at depth `d0` with `st0` read so far.
#[verifier::rlimit(60)]
fn line_in_exec(evs: &Vec<XmlEvent>, i0: usize, d0: usize, bounded: bool, st0: LineFormat) -> (r: Result<Option<LineFormat>, FillFail>)
    requires
        events_ok(evs_view(evs@)),
        i0 < evs@.len(),
        d0 <= i0 + 1,
    ensures
        match line_in(evs_view(evs@), i0 as int, d0 as int, bounded, st0@) {
            Ok(Some(v)) => r matches Ok(Some(x)) && x@ == v,
            Ok(None) => r matches Ok(None),
            Err(e) => r matches Err(f) && f == e,
        },
{
    let ghost ev = evs_view(evs@);
    let mut j: usize = i0;
    let mut d: usize = d0;
    let mut st = st0;
    while j < evs.len()
        invariant
            events_ok(ev),
            ev == evs_view(evs@),
            i0 <= j < evs@.len(),
            d <= j + 1,
            line_in(ev, i0 as int, d0 as int, bounded, st0@) == line_in(ev, j as int, d as int, bounded, st@),
        decreases evs.len() - j,
    {
        assert(evs@[j as int]@ == ev[j as int]);
        assert(tag_ok(ev[j as int]));
        match &evs[j] {
            XmlEvent::Error => { return Err(FillFail::Xml); },
            XmlEvent::Eof => { return Ok(line_result_exec(st)); },
            XmlEvent::Start(c, k) => {
                assert(j < ev.len() - 1);
                let ln = tag_local(c.as_slice(), *k);
                if bytes_equal_str(ln.as_slice(), "ln") {
                    let w = match num_attr_exec(c, *k, "w", None) { Ok(x) => x, Err(e) => { return Err(e); } };
                    st = LineFormat { width: w, ..st };
                } else if bytes_equal_str(ln.as_slice(), "solidFill") {
                    let col = match inner_color_exec(evs, j) { Ok(x) => x, Err(e) => { return Err(e); } };
                    match col {
                        Some(cf) => {
                            let copy = copy_color(&cf);
                            st = LineFormat { color: Some(cf), fill: Some(FillFormat::Solid(copy)), ..st };
                        },
                        None => {},
                    }
                    let nj = skip_end_exec(evs, j + 1, 1);
                    if nj > j {
                        j = nj;
                        continue;
                    } else {
                        return Ok(line_result_exec(st));
                    }
                }
                d = d + 1;
            },
            XmlEvent::Empty(c, k) => {
                let ln = tag_local(c.as_slice(), *k);
                if bytes_equal_str(ln.as_slice(), "prstDash") {
                    let v = match attr_exec(c, *k, "val") { Ok(x) => x, Err(_) => { return Err(FillFail::Attr); } };
                    st = LineFormat { dash_style: v, ..st };
                } else if bytes_equal_str(ln.as_slice(), "noFill") {
                    st = LineFormat { fill: Some(FillFormat::NoFill), ..st };
                }
            },
            XmlEvent::End(_) => {
                if bounded && d <= 1 {
                    return Ok(line_result_exec(st));
                }
                if d > 0 {
                    d = d - 1;
                }
            },
            _ => {},
        }
        assert(j < ev.len() - 1) by {
            if j == ev.len() - 1 { assert(ev.last() == ev[j as int]); }
        }
        j = j + 1;
    }
    Ok(line_result_exec(st))
}


/// Reads the outline of an `<a:ln>` fragment (see `line_read`):
/// `PptxError::MalformedAttribute` for a refused attribute, `PptxError::InvalidXml` for a
/// reader error or an unclosed `solidFill`.
pub fn parse_line(xml: &[u8]) -> (r: Result<Option<LineFormat>, PptxError>)
    requires
        xml@.len() < usize::MAX,
    ensures
        match line_read(xml@) {
            Ok(Some(v)) => r matches Ok(Some(x)) && x@ == v,
            Ok(None) => r matches Ok(None),
            Err(f) => r matches Err(e) && fill_fail_is(e, f),
        },
{
    let evs = collect_events(xml);
    let st = LineFormat { color: None, width: None, dash_style: None, fill: None };
    match line_in_exec(&evs, 0, 0, false, st) {
        Ok(l) => Ok(l),
        Err(f) => Err(fill_fail_error(f)),
    }
}

/// Reads the fill and outline of a `<p:spPr>` fragment (see `sp_pr_read`):
/// `PptxError::MalformedAttribute` for a refused attribute, `PptxError::InvalidXml` for a
/// reader error or an unclosed fill or outline element.
#[verifier::rlimit(80)]
pub fn parse_sp_pr(sp_pr: &[u8]) -> (r: Result<(Option<FillFormat>, Option<LineFormat>), PptxError>)
    requires
        sp_pr@.len() < usize::MAX,
    ensures
        match sp_pr_read(sp_pr@) {
            Ok((f, l)) => r matches Ok((x, y)) && opt_fill(x) == f && (match y { Some(v) => Some(v@), None => None }) == l,
            Err(f) => r matches Err(e) && fill_fail_is(e, f),
        },
{
    let evs = collect_events(sp_pr);
    let ghost ev = evs_view(evs@);
    let mut j: usize = 0;
    let mut depth: usize = 0;
    let mut fill: Option<FillFormat> = None;
    let mut line: Option<LineFormat> = None;
    while j < evs.len()
        invariant
            events_ok(ev),
            ev == evs_view(evs@),
            ev == xml_events(sp_pr@),
            j < evs@.len(),
            depth <= j,
            sp_pr_from(ev, 0, 0, None, None) == sp_pr_from(ev, j as int, depth as int, opt_fill(fill), match line { Some(v) => Some(v@), None => None }),
        decreases evs.len() - j,
    {
        assert(evs@[j as int]@ == ev[j as int]);
        assert(tag_ok(ev[j as int]));
        match &evs[j] {
            XmlEvent::Error => { return Err(fill_fail_error(FillFail::Xml)); },
            XmlEvent::Eof => { return Ok((fill, line)); },
            XmlEvent::Start(c, k) => {
                assert(j < ev.len() - 1);
                let dd = depth + 1;
                let ln = tag_local(c.as_slice(), *k);
                let nj = skip_end_exec(&evs, j + 1, 1);
                if bytes_equal_str(ln.as_slice(), "solidFill") && dd <= 2 {
                    let col = match inner_color_exec(&evs, j) { Ok(x) => x, Err(f) => { return Err(fill_fail_error(f)); } };
                    match col {
                        Some(cf) => { fill = Some(FillFormat::Solid(cf)); },
                        None => {},
                    }
                    if nj > j {
                        j = nj;
                        depth = dd;
                        continue;
                    } else {
                        return Ok((fill, line));
                    }
                } else if bytes_equal_str(ln.as_slice(), "gradFill") && dd <= 2 {
                    fill = match inner_gradient_exec(&evs, j) { Ok(g) => g, Err(f) => { return Err(fill_fail_error(f)); } };
                    if nj > j {
                        j = nj;
                        depth = dd;
                        continue;
                    } else {
                        return Ok((fill, line));
                    }
                } else if bytes_equal_str(ln.as_slice(), "ln") {
                    let w = match num_attr_exec(c, *k, "w", None) { Ok(x) => x, Err(f) => { return Err(fill_fail_error(f)); } };
                    if !closes_exec(&evs, j + 1, 1) {
                        return Err(fill_fail_error(FillFail::Xml));
                    }
                    let st = LineFormat { color: None, width: w, dash_style: None, fill: None };
                    line = match line_in_exec(&evs, j + 1, 1, true, st) { Ok(l) => l, Err(f) => { return Err(fill_fail_error(f)); } };
                    if nj > j {
                        j = nj;
                        depth = dd;
                        continue;
                    } else {
                        return Ok((fill, line));
                    }
                }
                depth = dd;
            },
            XmlEvent::Empty(c, k) => {
                let ln = tag_local(c.as_slice(), *k);
                if bytes_equal_str(ln.as_slice(), "noFill") && depth <= 1 {
                    fill = Some(FillFormat::NoFill);
                } else if bytes_equal_str(ln.as_slice(), "grpFill") && depth <= 1 {
                    fill = Some(FillFormat::Background);
                }
            },
            XmlEvent::End(_) => {
                if depth > 0 {
                    depth = depth - 1;
                }
            },
            _ => {},
        }
        assert(j < ev.len() - 1) by {
            if j == ev.len() - 1 { assert(ev.last() == ev[j as int]); }
        }
        j = j + 1;
    }
    Ok((fill, line))
}

} // verus!
