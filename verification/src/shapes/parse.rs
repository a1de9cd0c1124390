//! Reading the shapes of a slide's shape tree (`<p:spTree>`) from its XML.
use vstd::prelude::*;
use crate::enums::{
    PlaceholderOrientation, PlaceholderSize, PpPlaceholderType, ph_orient_from_token, ph_size_from_token,
    ph_type_from_token,
};
use crate::error::PptxError;
use crate::presentation::fonts::{last_value, value_after};
use crate::scan::{i64_text_value, parse_i64_text, parse_u32_text, u32_text_value};
use crate::shapes::model::{AutoShape, Connector, GraphicFrame, GroupShape, Picture, Shape, opt_text};
use crate::shapes::placeholder::PlaceholderFormat;
use crate::shapes::text_frame::{FrameView, parse_text_frame, text_frame_read};
use crate::shapes::fill::{FillView, LineView, opt_fill, parse_sp_pr, sp_pr_read};
use crate::units::{Emu, PlaceholderIndex, ShapeId};
use crate::text::{lossy_utf8, xml_escape_spec};
use crate::xml::{
    EventView, XmlEvent, attr_value, attributes_of, attrs_view, bytes_are, bytes_equal_str, is_final,
    next_event, reader_events, tag_attrs, tag_local, tag_local_name, xml_attr_lookup, xml_events, xml_reader,
};

verus! {

/// The URI of the graphic data of a table.
pub const TABLE_URI: &'static str = "http://schemas.openxmlformats.org/drawingml/2006/table";

/// The URI of the graphic data of a chart.
pub const CHART_URI: &'static str = "http://schemas.openxmlformats.org/drawingml/2006/chart";

/// The element a shape is read from.
#[derive(Clone, Copy, PartialEq, Eq, Structural)]
pub enum ShapeKind {
    Sp,
    Pic,
    GraphicFrame,
    CxnSp,
    GrpSp,
}

/// Where in the slide's XML the reader stands.
#[derive(Clone, Copy, PartialEq, Eq, Structural)]
pub enum ParseState {
    Seeking,
    InSpTree,
    InShape,
}

/// What has been read of one shape so far.
pub struct AccumView {
    pub kind: ShapeKind,
    pub shape_id: u32,
    pub name: Seq<char>,
    pub left: i64,
    pub top: i64,
    pub width: i64,
    pub height: i64,
    pub rotation: i64,
    pub prst_geom: Option<Seq<char>>,
    pub is_textbox: bool,
    pub has_tx_body: bool,
    pub image_r_id: Option<Seq<char>>,
    pub description: Option<Seq<char>>,
    pub graphic_data_uri: Option<Seq<char>>,
    pub smartart_r_id: Option<Seq<char>>,
    pub flip_h: bool,
    pub flip_v: bool,
    pub placeholder: Option<PlaceholderFormat>,
    /// Whether the element being captured is the text body (else the shape properties).
    pub cap_body: bool,
    /// The nesting depth inside the element being captured, while one is.
    pub cap_depth: Option<u64>,
    /// The XML captured so far.
    pub cap_text: Seq<char>,
    /// The XML of the shape's `<p:txBody>`, once captured.
    pub tx_body: Option<Seq<char>>,
    /// The XML of the shape's `<p:spPr>`, once captured.
    pub sp_pr: Option<Seq<char>>,
}

/// What has been read of one shape so far, while its element is open.
pub struct ShapeAccum {
    pub kind: ShapeKind,
    pub shape_id: u32,
    pub name: String,
    pub left: i64,
    pub top: i64,
    pub width: i64,
    pub height: i64,
    pub rotation: i64,
    pub prst_geom: Option<String>,
    pub is_textbox: bool,
    pub has_tx_body: bool,
    pub image_r_id: Option<String>,
    pub description: Option<String>,
    pub graphic_data_uri: Option<String>,
    pub smartart_r_id: Option<String>,
    pub flip_h: bool,
    pub flip_v: bool,
    pub placeholder: Option<PlaceholderFormat>,
    pub cap_body: bool,
    pub cap_depth: Option<u64>,
    pub cap_text: String,
    pub tx_body: Option<String>,
    pub sp_pr: Option<String>,
}

impl View for ShapeAccum {
    type V = AccumView;

    open spec fn view(&self) -> AccumView {
        AccumView {
            kind: self.kind,
            shape_id: self.shape_id,
            name: self.name@,
            left: self.left,
            top: self.top,
            width: self.width,
            height: self.height,
            rotation: self.rotation,
            prst_geom: opt_text(self.prst_geom),
            is_textbox: self.is_textbox,
            has_tx_body: self.has_tx_body,
            image_r_id: opt_text(self.image_r_id),
            description: opt_text(self.description),
            graphic_data_uri: opt_text(self.graphic_data_uri),
            smartart_r_id: opt_text(self.smartart_r_id),
            flip_h: self.flip_h,
            flip_v: self.flip_v,
            placeholder: self.placeholder,
            cap_body: self.cap_body,
            cap_depth: self.cap_depth,
            cap_text: self.cap_text@,
            tx_body: opt_text(self.tx_body),
            sp_pr: opt_text(self.sp_pr),
        }
    }
}

/// Nothing read yet of a shape of the given kind: id 0, an empty name, all at zero.
pub open spec fn accum_start(kind: ShapeKind) -> AccumView {
    AccumView {
        kind,
        shape_id: 0,
        name: Seq::empty(),
        left: 0,
        top: 0,
        width: 0,
        height: 0,
        rotation: 0,
        prst_geom: None,
        is_textbox: false,
        has_tx_body: false,
        image_r_id: None,
        description: None,
        graphic_data_uri: None,
        smartart_r_id: None,
        flip_h: false,
        flip_v: false,
        placeholder: None,
        cap_body: false,
        cap_depth: None,
        cap_text: Seq::empty(),
        tx_body: None,
        sp_pr: None,
    }
}

/// A start tag as captured: its raw content between `<` and `>`.
pub open spec fn start_tag_text(c: Seq<u8>) -> Seq<char> {
    "<"@ + lossy_utf8(c) + ">"@
}

/// An empty-element tag as captured.
pub open spec fn empty_tag_text(c: Seq<u8>) -> Seq<char> {
    "<"@ + lossy_utf8(c) + "/>"@
}

/// An end tag as captured.
pub open spec fn end_tag_text(name: Seq<u8>) -> Seq<char> {
    "</"@ + lossy_utf8(name) + ">"@
}

/// A character or entity reference as captured.
pub open spec fn ref_text(name: Seq<u8>) -> Seq<char> {
    "&"@ + lossy_utf8(name) + ";"@
}

/// One more level inside the captured element (saturating).
pub open spec fn deeper(d: u64) -> u64 {
    if d < u64::MAX { (d + 1) as u64 } else { d }
}

/// Starts capturing an element (`body`: the text body, else the shape properties).
pub open spec fn cap_open(a: AccumView, c: Seq<u8>, body: bool) -> AccumView {
    AccumView { cap_body: body, cap_depth: Some(1), cap_text: start_tag_text(c), ..a }
}

/// Captures the end tag `name`; the capture is kept when it closes the captured element.
pub open spec fn cap_close(a: AccumView, name: Seq<u8>) -> AccumView {
    let t = a.cap_text + end_tag_text(name);
    match a.cap_depth {
        Some(d) => if d <= 1 {
            if a.cap_body {
                AccumView { cap_depth: None, cap_text: Seq::empty(), tx_body: Some(t), ..a }
            } else {
                AccumView { cap_depth: None, cap_text: Seq::empty(), sp_pr: Some(t), ..a }
            }
        } else {
            AccumView { cap_depth: Some((d - 1) as u64), cap_text: t, ..a }
        },
        None => a,
    }
}

/// The unescaped value of attribute `key` of a tag given by its raw content and name length:
/// `Ok(None)` without it, `Err` when the tag is not UTF-8 or the reader refuses the attribute.
pub open spec fn attr_of(c: Seq<u8>, n: usize, key: Seq<char>) -> Result<Option<Seq<char>>, ()> {
    if vstd::utf8::valid_utf8(c) && n <= c.len() {
        xml_attr_lookup(vstd::utf8::decode_utf8(c), n, key)
    } else {
        Err(())
    }
}

/// The value of the last attribute whose local name is `key` (a namespaced attribute such
/// as `r:embed`), read as UTF-8 with invalid sequences replaced.
pub open spec fn attr_ns_of(c: Seq<u8>, n: usize, key: Seq<char>) -> Result<Option<Seq<char>>, ()> {
    match tag_attrs(c, n) {
        Some(l) => value_after(l, key, key),
        None => Err(()),
    }
}

/// A number attribute: its value when present and readable, else 0.
pub open spec fn u32_or_zero(a: Option<Seq<char>>) -> u32 {
    match a {
        Some(t) => match u32_text_value(t) {
            Some(v) => v,
            None => 0,
        },
        None => 0,
    }
}

/// A signed number attribute: its value when present and readable, else 0.
pub open spec fn i64_or_zero(a: Option<Seq<char>>) -> i64 {
    match a {
        Some(t) => match i64_text_value(t) {
            Some(v) => v,
            None => 0,
        },
        None => 0,
    }
}

/// Whether an attribute is present with the value `1`.
pub open spec fn is_one(a: Option<Seq<char>>) -> bool {
    a == Some("1"@)
}

/// The placeholder that a `<p:ph>` tag describes.
pub open spec fn placeholder_of(
    t: Option<Seq<char>>,
    idx: Option<Seq<char>>,
    o: Option<Seq<char>>,
    sz: Option<Seq<char>>,
) -> PlaceholderFormat {
    PlaceholderFormat {
        ph_type: match t { Some(x) => ph_type_from_token(x), None => None },
        idx: PlaceholderIndex(u32_or_zero(idx)),
        orient: match o { Some(x) => ph_orient_from_token(x), None => None },
        sz: match sz { Some(x) => ph_size_from_token(x), None => None },
    }
}

/// The attribute values that a placeholder is written with (the tokens of its type,
/// orientation and size, and the digits of its index when above zero) read back as the same
/// placeholder.
pub proof fn lemma_placeholder_attrs_read_back(p: PlaceholderFormat)
    ensures
        placeholder_of(
            match p.ph_type { Some(t) => Some(crate::enums::ph_type_token(t)), None => None },
            if p.idx.0 > 0 { Some(crate::text::nat_digits(p.idx.0 as nat)) } else { None },
            match p.orient { Some(o) => Some(crate::enums::ph_orient_token(o)), None => None },
            match p.sz { Some(z) => Some(crate::enums::ph_size_token(z)), None => None },
        ) == p,
{
    if let Some(t) = p.ph_type {
        crate::enums::lemma_ph_type_token_round_trip(t, Seq::empty());
    }
    let o = match p.orient { Some(o) => o, None => crate::enums::PlaceholderOrientation::Horizontal };
    let z = match p.sz { Some(z) => z, None => crate::enums::PlaceholderSize::Full };
    crate::enums::lemma_ph_orient_size_round_trip(o, z);
    if p.idx.0 > 0 {
        let d = crate::text::nat_digits(p.idx.0 as nat);
        crate::scan::lemma_nat_digits(p.idx.0 as nat);
        assert(d[0] != '+');
        assert(crate::scan::after_plus(d) == d);
        assert(u32_text_value(d) == Some(p.idx.0));
    }
}

/// What a start or empty tag with local name `ln` adds to the shape being read: its id,
/// name and description, text-box flag, placeholder, offset, extent, rotation and flips,
/// preset geometry, text body, image, graphic data URI or diagram relationship; `Err` when
/// an attribute that it reads is refused.
pub open spec fn accum_after(ln: Seq<u8>, c: Seq<u8>, n: usize, a: AccumView) -> Result<AccumView, ()> {
    if bytes_are(ln, "cNvPr"@) {
        match (attr_of(c, n, "id"@), attr_of(c, n, "name"@), attr_of(c, n, "descr"@)) {
            (Ok(id), Ok(name), Ok(d)) => Ok(AccumView {
                shape_id: u32_or_zero(id),
                name: match name { Some(x) => x, None => Seq::empty() },
                description: match d { Some(x) => Some(x), None => a.description },
                ..a
            }),
            _ => Err(()),
        }
    } else if bytes_are(ln, "cNvSpPr"@) {
        match attr_of(c, n, "txBox"@) {
            Ok(t) => Ok(AccumView { is_textbox: is_one(t), ..a }),
            Err(_) => Err(()),
        }
    } else if bytes_are(ln, "ph"@) {
        match (attr_of(c, n, "type"@), attr_of(c, n, "idx"@), attr_of(c, n, "orient"@), attr_of(c, n, "sz"@)) {
            (Ok(t), Ok(i), Ok(o), Ok(s)) => Ok(AccumView { placeholder: Some(placeholder_of(t, i, o, s)), ..a }),
            _ => Err(()),
        }
    } else if bytes_are(ln, "off"@) {
        match (attr_of(c, n, "x"@), attr_of(c, n, "y"@)) {
            (Ok(x), Ok(y)) => Ok(AccumView { left: i64_or_zero(x), top: i64_or_zero(y), ..a }),
            _ => Err(()),
        }
    } else if bytes_are(ln, "ext"@) {
        match (attr_of(c, n, "cx"@), attr_of(c, n, "cy"@)) {
            (Ok(x), Ok(y)) => Ok(AccumView { width: i64_or_zero(x), height: i64_or_zero(y), ..a }),
            _ => Err(()),
        }
    } else if bytes_are(ln, "xfrm"@) {
        match (attr_of(c, n, "rot"@), attr_of(c, n, "flipH"@), attr_of(c, n, "flipV"@)) {
            (Ok(r), Ok(h), Ok(v)) => Ok(AccumView {
                rotation: match r {
                    Some(t) => match i64_text_value(t) { Some(x) => x, None => a.rotation },
                    None => a.rotation,
                },
                flip_h: is_one(h),
                flip_v: is_one(v),
                ..a
            }),
            _ => Err(()),
        }
    } else if bytes_are(ln, "prstGeom"@) {
        match attr_of(c, n, "prst"@) {
            Ok(p) => Ok(AccumView { prst_geom: p, ..a }),
            Err(_) => Err(()),
        }
    } else if bytes_are(ln, "txBody"@) {
        Ok(AccumView { has_tx_body: true, ..a })
    } else if bytes_are(ln, "blip"@) {
        match attr_ns_of(c, n, "embed"@) {
            Ok(r) => Ok(AccumView { image_r_id: r, ..a }),
            Err(_) => Err(()),
        }
    } else if bytes_are(ln, "graphicData"@) {
        match attr_of(c, n, "uri"@) {
            Ok(u) => Ok(AccumView { graphic_data_uri: u, ..a }),
            Err(_) => Err(()),
        }
    } else if bytes_are(ln, "relIds"@) {
        match attr_ns_of(c, n, "dm"@) {
            Ok(r) => Ok(AccumView { smartart_r_id: r, ..a }),
            Err(_) => Err(()),
        }
    } else {
        Ok(a)
    }
}

/// The kind of shape that a direct child of the shape tree with local name `ln` is, if any.
pub open spec fn kind_of(ln: Seq<u8>) -> Option<ShapeKind> {
    if bytes_are(ln, "sp"@) {
        Some(ShapeKind::Sp)
    } else if bytes_are(ln, "pic"@) {
        Some(ShapeKind::Pic)
    } else if bytes_are(ln, "graphicFrame"@) {
        Some(ShapeKind::GraphicFrame)
    } else if bytes_are(ln, "cxnSp"@) {
        Some(ShapeKind::CxnSp)
    } else if bytes_are(ln, "grpSp"@) {
        Some(ShapeKind::GrpSp)
    } else {
        None
    }
}

/// The state of reading a slide's shapes: where the reader stands, the local names of the
/// open elements, the depth at which the shape tree opened, the shape being read and the
/// shapes read.
pub struct TreeRead {
    pub state: ParseState,
    pub stack: Seq<Seq<u8>>,
    pub sp_depth: Option<int>,
    pub current: Option<AccumView>,
    pub shapes: Seq<AccumView>,
    /// The depth of a shape element open inside the shape being read, whose contents
    /// belong to that inner shape and not to the one being read.
    pub nested: Option<int>,
}

/// The state before the first event.
pub open spec fn tree_start() -> TreeRead {
    TreeRead { state: ParseState::Seeking, stack: Seq::empty(), sp_depth: None, current: None, shapes: Seq::empty(), nested: None }
}

/// Whether tags add to the shape being read: a shape is being read and no shape element is
/// open inside it.
pub open spec fn reading(st: TreeRead) -> bool {
    st.state == ParseState::InShape && st.current is Some && st.nested is None
}

/// What a start tag does before it is pushed: a `spTree` opens the shape tree; a direct
/// child of the tree that is a shape starts one; inside a shape, the tag adds to it.
pub open spec fn on_start(st: TreeRead, c: Seq<u8>, n: usize) -> Result<TreeRead, ()> {
    let ln = tag_local_name(c, n);
    let depth = st.stack.len() as int;
    match st.state {
        ParseState::Seeking => if bytes_are(ln, "spTree"@) {
            Ok(TreeRead { state: ParseState::InSpTree, sp_depth: Some(depth), ..st })
        } else {
            Ok(st)
        },
        ParseState::InSpTree => if st.sp_depth == Some(depth - 1) {
            match kind_of(ln) {
                Some(k) => Ok(TreeRead { state: ParseState::InShape, current: Some(accum_start(k)), ..st }),
                None => Ok(st),
            }
        } else {
            Ok(st)
        },
        ParseState::InShape => match st.current {
            Some(a) => if st.nested is Some {
                Ok(st)
            } else if a.cap_depth is Some {
                match accum_after(ln, c, n, a) {
                    Ok(a2) => Ok(TreeRead {
                        current: Some(AccumView { cap_depth: Some(deeper(a.cap_depth->0)), cap_text: a2.cap_text + start_tag_text(c), ..a2 }),
                        ..st
                    }),
                    Err(_) => Err(()),
                }
            } else if kind_of(ln) is Some {
                Ok(TreeRead { nested: Some(depth), ..st })
            } else {
                match accum_after(ln, c, n, a) {
                    Ok(a2) => Ok(TreeRead {
                        current: Some(if bytes_are(ln, "spPr"@) {
                            cap_open(a2, c, false)
                        } else if bytes_are(ln, "txBody"@) {
                            cap_open(a2, c, true)
                        } else {
                            a2
                        }),
                        ..st
                    }),
                    Err(_) => Err(()),
                }
            },
            None => Ok(st),
        },
    }
}

/// What an end tag does: it pops the innermost open element; closing a shape's element ends
/// the shape, closing the shape tree leaves it, closing a shape element inside the shape
/// being read lets its tags add to it again.
pub open spec fn on_end(st: TreeRead) -> TreeRead {
    let popped: Option<Seq<u8>> = if st.stack.len() > 0 { Some(st.stack.last()) } else { None };
    let stack = if st.stack.len() > 0 { st.stack.drop_last() } else { st.stack };
    let st2 = TreeRead {
        stack,
        nested: match st.nested { Some(d) => if stack.len() == d { None } else { Some(d) }, None => None },
        ..st
    };
    if st.state == ParseState::InShape {
        match st.sp_depth {
            Some(d) => if stack.len() == d + 1 {
                TreeRead {
                    state: ParseState::InSpTree,
                    current: None,
                    nested: None,
                    shapes: match st.current { Some(a) => st.shapes.push(a), None => st.shapes },
                    ..st2
                }
            } else {
                st2
            },
            None => st2,
        }
    } else if st.state == ParseState::InSpTree {
        match popped {
            Some(p) => if bytes_are(p, "spTree"@) {
                TreeRead { state: ParseState::Seeking, sp_depth: None, ..st2 }
            } else {
                st2
            },
            None => st2,
        }
    } else {
        st2
    }
}

/// One event that is not the end of input or an error.
#[verifier::opaque]
pub open spec fn tree_step(st: TreeRead, e: EventView) -> Result<TreeRead, ()> {
    match e {
        EventView::Start(c, n) => match on_start(st, c, n) {
            Ok(s2) => Ok(TreeRead { stack: s2.stack.push(tag_local_name(c, n)), ..s2 }),
            Err(_) => Err(()),
        },
        EventView::Empty(c, n) => if reading(st) {
            let a = st.current->0;
            match accum_after(tag_local_name(c, n), c, n, a) {
                Ok(a2) => Ok(TreeRead {
                    current: Some(if a.cap_depth is Some {
                        AccumView { cap_text: a2.cap_text + empty_tag_text(c), ..a2 }
                    } else {
                        a2
                    }),
                    ..st
                }),
                Err(_) => Err(()),
            }
        } else {
            Ok(st)
        },
        EventView::Text(Some(t)) => Ok(captured(st, xml_escape_spec(t))),
        EventView::Ref(name) => Ok(captured(st, ref_text(name))),
        EventView::End(name) => Ok(on_end(
            if reading(st) && st.current->0.cap_depth is Some {
                TreeRead { current: Some(cap_close(st.current->0, name)), ..st }
            } else {
                st
            },
        )),
        _ => Ok(st),
    }
}

/// Text added to the capture, when one is under way in the shape being read.
pub open spec fn captured(st: TreeRead, text: Seq<char>) -> TreeRead {
    if reading(st) && st.current->0.cap_depth is Some {
        TreeRead { current: Some(AccumView { cap_text: st.current->0.cap_text + text, ..st.current->0 }), ..st }
    } else {
        st
    }
}

/// Why reading the shapes failed: the reader refused the XML, or an attribute.
pub enum ShapeFail {
    Reader,
    Attr,
}

/// The state after the events from position `i` on.
pub open spec fn tree_from(ev: Seq<EventView>, i: int, st: TreeRead) -> Result<TreeRead, ShapeFail>
    decreases ev.len() - i,
{
    if i < 0 || i >= ev.len() {
        Ok(st)
    } else {
        match ev[i] {
            EventView::Eof => Ok(st),
            EventView::Error => Err(ShapeFail::Reader),
            e => match tree_step(st, e) {
                Ok(s2) => tree_from(ev, i + 1, s2),
                Err(_) => Err(ShapeFail::Attr),
            },
        }
    }
}

/// The shapes of a slide's XML: those of every shape tree, in document order, each as read
/// when its element closed.
pub open spec fn shapes_read(xml: Seq<u8>) -> Result<Seq<AccumView>, ShapeFail> {
    match tree_from(xml_events(xml), 0, tree_start()) {
        Ok(st) => Ok(st.shapes),
        Err(f) => Err(f),
    }
}

/// Whether an error is the one a failure stands for.
pub open spec fn shape_fail_is(e: PptxError, f: ShapeFail) -> bool {
    match f {
        ShapeFail::Reader => e == PptxError::Xml,
        ShapeFail::Attr => e == PptxError::MalformedAttribute,
    }
}

/// The text body bytes of a shape: its captured `<p:txBody>` as UTF-8, empty when the
/// shape had a text body that was not captured, none without one.
pub open spec fn tx_body_bytes(a: AccumView) -> Option<Seq<u8>> {
    match a.tx_body {
        Some(t) => Some(vstd::utf8::encode_utf8(t)),
        None => if a.has_tx_body { Some(Seq::<u8>::empty()) } else { None },
    }
}

/// The text frame that a shape's text body gives: the one read from its bytes, or none when
/// it has no body, its body describes none, or reading it fails.
pub open spec fn frame_of_body(b: Option<Seq<u8>>) -> Option<FrameView> {
    match b {
        Some(bytes) => match text_frame_read(bytes) {
            Ok(Some(f)) => Some(f),
            _ => None,
        },
        None => None,
    }
}

/// The fill and outline that a shape's captured `<p:spPr>` gives (see `sp_pr_read`): none
/// when it has none or reading it fails.
pub open spec fn fill_line_of(sp: Option<Seq<char>>) -> (Option<FillView>, Option<LineView>) {
    match sp {
        Some(t) => {
            let b = vstd::utf8::encode_utf8(t);
            if b.len() < usize::MAX {
                match sp_pr_read(b) {
                    Ok(x) => x,
                    Err(_) => (None, None),
                }
            } else {
                (None, None)
            }
        },
        None => (None, None),
    }
}

/// Whether a shape is the one that what was read of it makes: the kind's type, with the
/// position, size, rotation, name and id read, the kind's own properties read, and nothing
/// else set.
pub open spec fn shape_is(s: Shape, a: AccumView) -> bool {
    match a.kind {
        ShapeKind::Sp => s matches Shape::AutoShape(x) && {
            &&& x.shape_id == ShapeId(a.shape_id) && x.name@ == a.name
            &&& x.left == Emu(a.left) && x.top == Emu(a.top) && x.width == Emu(a.width) && x.height == Emu(a.height)
            &&& x.rotation == a.rotation
            &&& opt_text(x.prst_geom) == a.prst_geom
            &&& x.is_textbox == a.is_textbox
            &&& x.placeholder == a.placeholder
            &&& (match x.tx_body_xml { Some(b) => Some(b@), None => None }) == tx_body_bytes(a)
            &&& (match x.text_frame { Some(f) => Some(f@), None => None }) == frame_of_body(tx_body_bytes(a))
            &&& opt_fill(x.fill) == fill_line_of(a.sp_pr).0
            &&& (match x.line { Some(l) => Some(l@), None => None }) == fill_line_of(a.sp_pr).1
            &&& x.click_action is None && x.hover_action is None
            &&& x.adjustments@.len() == 0 && x.custom_geometry is None
        },
        ShapeKind::Pic => s matches Shape::Picture(x) && {
            &&& x.shape_id == ShapeId(a.shape_id) && x.name@ == a.name
            &&& x.left == Emu(a.left) && x.top == Emu(a.top) && x.width == Emu(a.width) && x.height == Emu(a.height)
            &&& x.rotation == a.rotation
            &&& opt_text(x.image_r_id) == a.image_r_id
            &&& opt_text(x.description) == a.description
            &&& x.placeholder == a.placeholder
            &&& x.crop_left == 0 && x.crop_right == 0 && x.crop_top == 0 && x.crop_bottom == 0
            &&& x.click_action is None && x.hover_action is None && x.auto_shape_type is None
        },
        ShapeKind::GraphicFrame => s matches Shape::GraphicFrame(x) && {
            &&& x.shape_id == ShapeId(a.shape_id) && x.name@ == a.name
            &&& x.left == Emu(a.left) && x.top == Emu(a.top) && x.width == Emu(a.width) && x.height == Emu(a.height)
            &&& x.rotation == a.rotation
            &&& x.has_table == (a.graphic_data_uri == Some(TABLE_URI@))
            &&& x.has_chart == (a.graphic_data_uri == Some(CHART_URI@))
            &&& opt_text(x.graphic_data_uri) == a.graphic_data_uri
            &&& x.placeholder == a.placeholder
            &&& opt_text(x.smartart_r_id) == a.smartart_r_id
        },
        ShapeKind::CxnSp => s matches Shape::Connector(x) && {
            &&& x.shape_id == ShapeId(a.shape_id) && x.name@ == a.name
            &&& x.left == Emu(a.left) && x.top == Emu(a.top) && x.width == Emu(a.width) && x.height == Emu(a.height)
            &&& x.rotation == a.rotation
            &&& x.flip_h == a.flip_h && x.flip_v == a.flip_v
            &&& opt_text(x.prst_geom) == a.prst_geom
            &&& x.begin_shape_id is None && x.begin_cxn_idx is None && x.end_shape_id is None && x.end_cxn_idx is None
        },
        ShapeKind::GrpSp => s matches Shape::GroupShape(x) && {
            &&& x.shape_id == ShapeId(a.shape_id) && x.name@ == a.name
            &&& x.left == Emu(a.left) && x.top == Emu(a.top) && x.width == Emu(a.width) && x.height == Emu(a.height)
            &&& x.rotation == a.rotation
            &&& x.shapes@.len() == 0
        },
    }
}

/// Whether a list of shapes is, item by item, what was read.
pub open spec fn shapes_are(v: Seq<Shape>, l: Seq<AccumView>) -> bool {
    v.len() == l.len() && forall|i: int| 0 <= i < v.len() ==> shape_is(#[trigger] v[i], l[i])
}

/// The value of attribute `key` (see `attr_of`).
pub(crate) fn attr_exec(c: &Vec<u8>, n: usize, key: &str) -> (r: Result<Option<String>, ()>)
    ensures
        match attr_of(c@, n, key@) {
            Ok(Some(v)) => r matches Ok(Some(s)) && s@ == v,
            Ok(None) => r matches Ok(None),
            Err(_) => r is Err,
        },
{
    match crate::text::str_from_utf8(c.as_slice()) {
        Some(s) => {
            if n <= c.len() {
                attr_value(s, n, key)
            } else {
                Err(())
            }
        },
        None => Err(()),
    }
}

/// The value of the namespaced attribute `key` (see `attr_ns_of`).
fn attr_ns_exec(c: &Vec<u8>, n: usize, key: &str) -> (r: Result<Option<String>, ()>)
    ensures
        match attr_ns_of(c@, n, key@) {
            Ok(Some(v)) => r matches Ok(Some(s)) && s@ == v,
            Ok(None) => r matches Ok(None),
            Err(_) => r is Err,
        },
{
    match attributes_of(c.as_slice(), n) {
        Some(attrs) => last_value(&attrs, key, key),
        None => Err(()),
    }
}

fn u32_or_zero_exec(a: &Option<String>) -> (r: u32)
    ensures
        r == u32_or_zero(opt_text(*a)),
{
    match a {
        Some(t) => match parse_u32_text(t.as_str()) {
            Some(v) => v,
            None => 0,
        },
        None => 0,
    }
}

fn i64_or_zero_exec(a: &Option<String>) -> (r: i64)
    ensures
        r == i64_or_zero(opt_text(*a)),
{
    match a {
        Some(t) => match parse_i64_text(t.as_str()) {
            Some(v) => v,
            None => 0,
        },
        None => 0,
    }
}

fn is_one_exec(a: &Option<String>) -> (r: bool)
    ensures
        r == is_one(opt_text(*a)),
{
    match a {
        Some(t) => crate::enums::str_eq(t.as_str(), "1"),
        None => false,
    }
}

impl ShapeAccum {
    /// Nothing read yet of a shape of the given kind.
    pub fn new(kind: ShapeKind) -> (r: ShapeAccum)
        ensures
            r@ == accum_start(kind),
    {
        ShapeAccum {
            kind,
            shape_id: 0,
            name: String::new(),
            left: 0,
            top: 0,
            width: 0,
            height: 0,
            rotation: 0,
            prst_geom: None,
            is_textbox: false,
            has_tx_body: false,
            image_r_id: None,
            description: None,
            graphic_data_uri: None,
            smartart_r_id: None,
            flip_h: false,
            flip_v: false,
            placeholder: None,
            cap_body: false,
            cap_depth: None,
            cap_text: String::new(),
            tx_body: None,
            sp_pr: None,
        }
    }

    /// Starts capturing the element whose start tag has content `c`.
    fn cap_open(self, c: &Vec<u8>, body: bool) -> (r: ShapeAccum)
        ensures
            r@ == cap_open(self@, c@, body),
    {
        let mut a = self;
        let mut t = String::new();
        crate::text::string_push_str(&mut t, "<");
        let raw = crate::text::string_from_utf8_lossy(c.as_slice());
        crate::text::string_push_str(&mut t, raw.as_str());
        crate::text::string_push_str(&mut t, ">");
        assert(t@ =~= start_tag_text(c@));
        a.cap_body = body;
        a.cap_depth = Some(1);
        a.cap_text = t;
        a
    }

    /// Appends captured text.
    fn cap_add(&mut self, t: &str)
        ensures
            final(self)@ == (AccumView { cap_text: old(self)@.cap_text + t@, ..old(self)@ }),
    {
        crate::text::string_push_str(&mut self.cap_text, t);
    }

    /// Captures the end tag `name` (see `cap_close`).
    fn cap_close(self, name: &Vec<u8>) -> (r: ShapeAccum)
        ensures
            r@ == cap_close(self@, name@),
    {
        let mut a = self;
        match a.cap_depth {
            Some(d) => {
                let raw = crate::text::string_from_utf8_lossy(name.as_slice());
                crate::text::string_push_str(&mut a.cap_text, "</");
                crate::text::string_push_str(&mut a.cap_text, raw.as_str());
                crate::text::string_push_str(&mut a.cap_text, ">");
                assert(a.cap_text@ =~= self@.cap_text + end_tag_text(name@));
                if d <= 1 {
                    let mut t = String::new();
                    std::mem::swap(&mut t, &mut a.cap_text);
                    a.cap_depth = None;
                    if a.cap_body {
                        a.tx_body = Some(t);
                    } else {
                        a.sp_pr = Some(t);
                    }
                } else {
                    a.cap_depth = Some(d - 1);
                }
                a
            },
            None => a,
        }
    }

    fn with_cnvpr(self, c: &Vec<u8>, n: usize) -> (r: Result<ShapeAccum, ()>)
        ensures
            match (attr_of(c@, n, "id"@), attr_of(c@, n, "name"@), attr_of(c@, n, "descr"@)) {
                (Ok(id), Ok(name), Ok(d)) => r matches Ok(b) && b@ == (AccumView {
                    shape_id: u32_or_zero(id),
                    name: match name { Some(x) => x, None => Seq::empty() },
                    description: match d { Some(x) => Some(x), None => self@.description },
                    ..self@
                }),
                _ => r is Err,
            },
    {
        let id = attr_exec(c, n, "id")?;
        let name = attr_exec(c, n, "name")?;
        let d = attr_exec(c, n, "descr")?;
        let mut a = self;
        a.shape_id = u32_or_zero_exec(&id);
        a.name = match name { Some(x) => x, None => String::new() };
        if d.is_some() {
            a.description = d;
        }
        Ok(a)
    }

    fn with_ph(self, c: &Vec<u8>, n: usize) -> (r: Result<ShapeAccum, ()>)
        ensures
            match (attr_of(c@, n, "type"@), attr_of(c@, n, "idx"@), attr_of(c@, n, "orient"@), attr_of(c@, n, "sz"@)) {
                (Ok(t), Ok(i), Ok(o), Ok(z)) => r matches Ok(b) && b@ == (AccumView { placeholder: Some(placeholder_of(t, i, o, z)), ..self@ }),
                _ => r is Err,
            },
    {
        let t = attr_exec(c, n, "type")?;
        let i = attr_exec(c, n, "idx")?;
        let o = attr_exec(c, n, "orient")?;
        let z = attr_exec(c, n, "sz")?;
        let ph_type = match &t { Some(x) => PpPlaceholderType::from_xml_str(x.as_str()), None => None };
        let orient = match &o { Some(x) => PlaceholderOrientation::from_xml_str(x.as_str()), None => None };
        let sz = match &z { Some(x) => PlaceholderSize::from_xml_str(x.as_str()), None => None };
        let idx = PlaceholderIndex(u32_or_zero_exec(&i));
        let mut a = self;
        a.placeholder = Some(PlaceholderFormat { ph_type, idx, orient, sz });
        Ok(a)
    }

    fn with_pair(self, c: &Vec<u8>, n: usize, k1: &str, k2: &str, size: bool) -> (r: Result<ShapeAccum, ()>)
        ensures
            match (attr_of(c@, n, k1@), attr_of(c@, n, k2@)) {
                (Ok(x), Ok(y)) => r matches Ok(b) && b@ == (if size {
                    AccumView { width: i64_or_zero(x), height: i64_or_zero(y), ..self@ }
                } else {
                    AccumView { left: i64_or_zero(x), top: i64_or_zero(y), ..self@ }
                }),
                _ => r is Err,
            },
    {
        let x = attr_exec(c, n, k1)?;
        let y = attr_exec(c, n, k2)?;
        let mut a = self;
        if size {
            a.width = i64_or_zero_exec(&x);
            a.height = i64_or_zero_exec(&y);
        } else {
            a.left = i64_or_zero_exec(&x);
            a.top = i64_or_zero_exec(&y);
        }
        Ok(a)
    }

    fn with_xfrm(self, c: &Vec<u8>, n: usize) -> (r: Result<ShapeAccum, ()>)
        ensures
            match (attr_of(c@, n, "rot"@), attr_of(c@, n, "flipH"@), attr_of(c@, n, "flipV"@)) {
                (Ok(rt), Ok(h), Ok(v)) => r matches Ok(b) && b@ == (AccumView {
                    rotation: match rt {
                        Some(t) => match i64_text_value(t) { Some(x) => x, None => self@.rotation },
                        None => self@.rotation,
                    },
                    flip_h: is_one(h),
                    flip_v: is_one(v),
                    ..self@
                }),
                _ => r is Err,
            },
    {
        let rt = attr_exec(c, n, "rot")?;
        let h = attr_exec(c, n, "flipH")?;
        let v = attr_exec(c, n, "flipV")?;
        let mut a = self;
        match &rt {
            Some(t) => match parse_i64_text(t.as_str()) {
                Some(x) => { a.rotation = x; },
                None => {},
            },
            None => {},
        }
        a.flip_h = is_one_exec(&h);
        a.flip_v = is_one_exec(&v);
        Ok(a)
    }

    /// Adds what a start or empty tag with local name `ln` holds (see `accum_after`).
    #[verifier::rlimit(30)]
    pub fn process_start(self, ln: &Vec<u8>, c: &Vec<u8>, n: usize) -> (r: Result<ShapeAccum, ()>)
        ensures
            match accum_after(ln@, c@, n, self@) {
                Ok(v) => r matches Ok(b) && b@ == v,
                Err(_) => r is Err,
            },
    {
        let l = ln.as_slice();
        if bytes_equal_str(l, "cNvPr") {
            self.with_cnvpr(c, n)
        } else if bytes_equal_str(l, "cNvSpPr") {
            let t = attr_exec(c, n, "txBox")?;
            let mut a = self;
            a.is_textbox = is_one_exec(&t);
            Ok(a)
        } else if bytes_equal_str(l, "ph") {
            self.with_ph(c, n)
        } else if bytes_equal_str(l, "off") {
            self.with_pair(c, n, "x", "y", false)
        } else if bytes_equal_str(l, "ext") {
            self.with_pair(c, n, "cx", "cy", true)
        } else if bytes_equal_str(l, "xfrm") {
            self.with_xfrm(c, n)
        } else if bytes_equal_str(l, "prstGeom") {
            let p = attr_exec(c, n, "prst")?;
            let mut a = self;
            a.prst_geom = p;
            Ok(a)
        } else if bytes_equal_str(l, "txBody") {
            let mut a = self;
            a.has_tx_body = true;
            Ok(a)
        } else if bytes_equal_str(l, "blip") {
            let r = attr_ns_exec(c, n, "embed")?;
            let mut a = self;
            a.image_r_id = r;
            Ok(a)
        } else if bytes_equal_str(l, "graphicData") {
            let u = attr_exec(c, n, "uri")?;
            let mut a = self;
            a.graphic_data_uri = u;
            Ok(a)
        } else if bytes_equal_str(l, "relIds") {
            let r = attr_ns_exec(c, n, "dm")?;
            let mut a = self;
            a.smartart_r_id = r;
            Ok(a)
        } else {
            Ok(self)
        }
    }

    /// The shape that what was read makes (see `shape_is`).
    #[verifier::rlimit(30)]
    pub fn into_shape(self) -> (r: Shape)
        ensures
            shape_is(r, self@),
    {
        let ShapeAccum {
            kind, shape_id, name, left, top, width, height, rotation, prst_geom, is_textbox, has_tx_body,
            image_r_id, description, graphic_data_uri, smartart_r_id, flip_h, flip_v, placeholder,
            cap_body: _, cap_depth: _, cap_text: _, tx_body, sp_pr,
        } = self;
        match kind {
            ShapeKind::Sp => {
                let body: Option<Vec<u8>> = match tx_body {
                    Some(t) => Some(crate::text::string_into_bytes(t)),
                    None => if has_tx_body { Some(Vec::new()) } else { None },
                };
                let (fill, line) = match sp_pr {
                    Some(t) => {
                        let b = crate::text::string_into_bytes(t);
                        if b.len() < usize::MAX {
                            match parse_sp_pr(b.as_slice()) {
                                Ok(x) => x,
                                Err(_) => (None, None),
                            }
                        } else {
                            (None, None)
                        }
                    },
                    None => (None, None),
                };
                let frame = match &body {
                    Some(b) => match parse_text_frame(b.as_slice()) {
                        Ok(f) => f,
                        Err(_) => None,
                    },
                    None => None,
                };
                Shape::AutoShape(AutoShape {
                shape_id: ShapeId(shape_id),
                name,
                left: Emu(left),
                top: Emu(top),
                width: Emu(width),
                height: Emu(height),
                rotation,
                prst_geom,
                is_textbox,
                placeholder,
                tx_body_xml: body,
                text_frame: frame,
                fill,
                line,
                click_action: None,
                hover_action: None,
                adjustments: Vec::new(),
                custom_geometry: None,
            })
            },
            ShapeKind::Pic => Shape::Picture(Picture {
                shape_id: ShapeId(shape_id),
                name,
                left: Emu(left),
                top: Emu(top),
                width: Emu(width),
                height: Emu(height),
                rotation,
                image_r_id,
                description,
                placeholder,
                crop_left: 0,
                crop_right: 0,
                crop_top: 0,
                crop_bottom: 0,
                click_action: None,
                hover_action: None,
                auto_shape_type: None,
            }),
            ShapeKind::GraphicFrame => {
                let (has_table, has_chart) = match &graphic_data_uri {
                    Some(u) => (crate::enums::str_eq(u.as_str(), TABLE_URI), crate::enums::str_eq(u.as_str(), CHART_URI)),
                    None => (false, false),
                };
                Shape::GraphicFrame(GraphicFrame {
                    shape_id: ShapeId(shape_id),
                    name,
                    left: Emu(left),
                    top: Emu(top),
                    width: Emu(width),
                    height: Emu(height),
                    rotation,
                    has_table,
                    has_chart,
                    graphic_data_uri,
                    placeholder,
                    smartart_r_id,
                })
            },
            ShapeKind::CxnSp => Shape::Connector(Connector {
                shape_id: ShapeId(shape_id),
                name,
                left: Emu(left),
                top: Emu(top),
                width: Emu(width),
                height: Emu(height),
                rotation,
                flip_h,
                flip_v,
                prst_geom,
                begin_shape_id: None,
                begin_cxn_idx: None,
                end_shape_id: None,
                end_cxn_idx: None,
            }),
            ShapeKind::GrpSp => Shape::GroupShape(GroupShape {
                shape_id: ShapeId(shape_id),
                name,
                left: Emu(left),
                top: Emu(top),
                width: Emu(width),
                height: Emu(height),
                rotation,
                shapes: Vec::new(),
            }),
        }
    }
}

/// The local names of the open elements.
pub open spec fn stack_view(v: Seq<Vec<u8>>) -> Seq<Seq<u8>> {
    v.map_values(|x: Vec<u8>| x@)
}

/// The views of an optional accumulator.
pub open spec fn opt_accum(a: Option<ShapeAccum>) -> Option<AccumView> {
    match a {
        Some(x) => Some(x@),
        None => None,
    }
}

/// The depth at which the shape tree opened, as an integer.
pub open spec fn opt_depth(d: Option<usize>) -> Option<int> {
    match d {
        Some(x) => Some(x as int),
        None => None,
    }
}

/// The reader's position in the XML, apart from the shapes read.
struct Walk {
    state: ParseState,
    stack: Vec<Vec<u8>>,
    sp_depth: Option<usize>,
    current: Option<ShapeAccum>,
    nested: Option<usize>,
}

/// The state of reading, with the shapes read so far.
spec fn walk_view(w: Walk, read: Seq<AccumView>) -> TreeRead {
    TreeRead {
        state: w.state,
        stack: stack_view(w.stack@),
        sp_depth: opt_depth(w.sp_depth),
        current: opt_accum(w.current),
        shapes: read,
        nested: opt_depth(w.nested),
    }
}

/// The kind of a direct child of the shape tree (see `kind_of`).
fn kind_exec(l: &[u8]) -> (r: Option<ShapeKind>)
    ensures
        r == kind_of(l@),
{
    if bytes_equal_str(l, "sp") {
        Some(ShapeKind::Sp)
    } else if bytes_equal_str(l, "pic") {
        Some(ShapeKind::Pic)
    } else if bytes_equal_str(l, "graphicFrame") {
        Some(ShapeKind::GraphicFrame)
    } else if bytes_equal_str(l, "cxnSp") {
        Some(ShapeKind::CxnSp)
    } else if bytes_equal_str(l, "grpSp") {
        Some(ShapeKind::GrpSp)
    } else {
        None
    }
}

/// A start tag inside the shape being read (see `on_start`).
#[verifier::rlimit(30)]
fn start_in_shape(a: ShapeAccum, ln: &Vec<u8>, c: &Vec<u8>, k: usize) -> (r: Result<ShapeAccum, ()>)
    requires
        ln@ == tag_local_name(c@, k),
    ensures
        a@.cap_depth is Some ==> match accum_after(ln@, c@, k, a@) {
            Ok(a2) => r matches Ok(b) && b@ == (AccumView { cap_depth: Some(deeper(a@.cap_depth->0)), cap_text: a2.cap_text + start_tag_text(c@), ..a2 }),
            Err(_) => r is Err,
        },
        a@.cap_depth is None ==> match accum_after(ln@, c@, k, a@) {
            Ok(a2) => r matches Ok(b) && b@ == (if bytes_are(ln@, "spPr"@) {
                cap_open(a2, c@, false)
            } else if bytes_are(ln@, "txBody"@) {
                cap_open(a2, c@, true)
            } else {
                a2
            }),
            Err(_) => r is Err,
        },
{
    let capturing = a.cap_depth.is_some();
    let d0 = match a.cap_depth { Some(d) => d, None => 0 };
    let mut b = a.process_start(ln, c, k)?;
    if capturing {
        b.cap_depth = Some(if d0 < u64::MAX { d0 + 1 } else { d0 });
        let raw = crate::text::string_from_utf8_lossy(c.as_slice());
        let ghost before = b.cap_text@;
        crate::text::string_push_str(&mut b.cap_text, "<");
        crate::text::string_push_str(&mut b.cap_text, raw.as_str());
        crate::text::string_push_str(&mut b.cap_text, ">");
        assert(b.cap_text@ =~= before + start_tag_text(c@));
        Ok(b)
    } else if bytes_equal_str(ln.as_slice(), "spPr") {
        Ok(b.cap_open(c, false))
    } else if bytes_equal_str(ln.as_slice(), "txBody") {
        Ok(b.cap_open(c, true))
    } else {
        Ok(b)
    }
}

impl Walk {
    /// A start tag (see `tree_step`).
    #[verifier::rlimit(40)]
    fn start(&mut self, c: &Vec<u8>, k: usize, Ghost(read): Ghost<Seq<AccumView>>) -> (r: Result<(), ()>)
        requires
            k <= c@.len(),
        ensures
            match tree_step(walk_view(*old(self), read), EventView::Start(c@, k)) {
                Ok(s2) => r is Ok && walk_view(*final(self), read) == s2,
                Err(_) => r is Err,
            },
    {
        reveal(tree_step);
        let ghost st = walk_view(*self, read);
        let ln = tag_local(c.as_slice(), k);
        let depth = self.stack.len();
        match self.state {
            ParseState::Seeking => {
                if bytes_equal_str(ln.as_slice(), "spTree") {
                    self.sp_depth = Some(depth);
                    self.state = ParseState::InSpTree;
                }
            },
            ParseState::InSpTree => {
                let direct = match self.sp_depth {
                    Some(d) => depth >= 1 && depth - 1 == d,
                    None => false,
                };
                if direct {
                    match kind_exec(ln.as_slice()) {
                        Some(kd) => {
                            self.current = Some(ShapeAccum::new(kd));
                            self.state = ParseState::InShape;
                        },
                        None => {},
                    }
                }
            },
            ParseState::InShape => {
                if self.nested.is_none() {
                    match self.current.take() {
                        Some(a) => {
                            if a.cap_depth.is_none() && kind_exec(ln.as_slice()).is_some() {
                                self.current = Some(a);
                                self.nested = Some(depth);
                            } else {
                                match start_in_shape(a, &ln, c, k) {
                                    Ok(b) => { self.current = Some(b); },
                                    Err(_) => {
                                        return Err(());
                                    },
                                }
                            }
                        },
                        None => {},
                    }
                }
            },
        }
        self.stack.push(ln);
        assert(stack_view(self.stack@) =~= st.stack.push(tag_local_name(c@, k)));
        Ok(())
    }

    /// An empty-element tag (see `tree_step`).
    #[verifier::rlimit(30)]
    fn empty(&mut self, c: &Vec<u8>, k: usize, Ghost(read): Ghost<Seq<AccumView>>) -> (r: Result<(), ()>)
        requires
            k <= c@.len(),
        ensures
            match tree_step(walk_view(*old(self), read), EventView::Empty(c@, k)) {
                Ok(s2) => r is Ok && walk_view(*final(self), read) == s2,
                Err(_) => r is Err,
            },
    {
        reveal(tree_step);
        if self.state == ParseState::InShape && self.nested.is_none() {
            match self.current.take() {
                Some(a) => {
                    let capturing = a.cap_depth.is_some();
                    let ln = tag_local(c.as_slice(), k);
                    match a.process_start(&ln, c, k) {
                        Ok(b) => {
                            let mut b = b;
                            if capturing {
                                let raw = crate::text::string_from_utf8_lossy(c.as_slice());
                                let ghost before = b.cap_text@;
                                crate::text::string_push_str(&mut b.cap_text, "<");
                                crate::text::string_push_str(&mut b.cap_text, raw.as_str());
                                crate::text::string_push_str(&mut b.cap_text, "/>");
                                assert(b.cap_text@ =~= before + empty_tag_text(c@));
                            }
                            self.current = Some(b);
                        },
                        Err(_) => {
                            return Err(());
                        },
                    }
                },
                None => {},
            }
        }
        Ok(())
    }

    /// Text or a reference, already in its captured form (see `captured`).
    fn capture_text(&mut self, t: &str, Ghost(read): Ghost<Seq<AccumView>>)
        ensures
            walk_view(*final(self), read) == captured(walk_view(*old(self), read), t@),
    {
        if self.state == ParseState::InShape && self.nested.is_none() {
            match &mut self.current {
                Some(a) => {
                    if a.cap_depth.is_some() {
                        a.cap_add(t);
                    }
                },
                None => {},
            }
        }
    }

    /// An end tag (see `tree_step`, `on_end`); hands out the shape it ends, if any.
    #[verifier::rlimit(40)]
    fn end(&mut self, name: &Vec<u8>, Ghost(read): Ghost<Seq<AccumView>>) -> (r: Option<ShapeAccum>)
        ensures
            tree_step(walk_view(*old(self), read), EventView::End(name@))
                == Ok::<TreeRead, ()>(walk_view(*final(self), match r {
                    Some(a) => read.push(a@),
                    None => read,
                })),
    {
        reveal(tree_step);
        if self.state == ParseState::InShape && self.nested.is_none() {
            match self.current.take() {
                Some(a) => {
                    if a.cap_depth.is_some() {
                        self.current = Some(a.cap_close(name));
                    } else {
                        self.current = Some(a);
                    }
                },
                None => {},
            }
        }
        let ghost st = walk_view(*self, read);
        let popped = self.stack.pop();
        assert(stack_view(self.stack@) =~= (if st.stack.len() > 0 { st.stack.drop_last() } else { st.stack }));
        match self.nested {
            Some(d) => {
                if self.stack.len() == d {
                    self.nested = None;
                }
            },
            None => {},
        }
        if self.state == ParseState::InShape {
            match self.sp_depth {
                Some(d) => {
                    if self.stack.len() >= 1 && self.stack.len() - 1 == d {
                        let done = self.current.take();
                        self.state = ParseState::InSpTree;
                        self.nested = None;
                        return done;
                    }
                },
                None => {},
            }
        } else if self.state == ParseState::InSpTree {
            match &popped {
                Some(p) => {
                    if bytes_equal_str(p.as_slice(), "spTree") {
                        self.state = ParseState::Seeking;
                        self.sp_depth = None;
                    }
                },
                None => {},
            }
        }
        None
    }
}

/// Undecodable text and other events change nothing.
proof fn lemma_tree_step_plain(st: TreeRead, e: EventView)
    ensures
        (e matches EventView::Text(t) && t is None) || e is Other ==> tree_step(st, e) == Ok::<TreeRead, ()>(st),
        e matches EventView::Text(Some(t)) ==> tree_step(st, e) == Ok::<TreeRead, ()>(captured(st, xml_escape_spec(t))),
        e matches EventView::Ref(n) ==> tree_step(st, e) == Ok::<TreeRead, ()>(captured(st, ref_text(n))),
{
    reveal(tree_step);
}

/// Reads the shapes of a slide's XML (see `shapes_read`): the direct children of each
/// `<p:spTree>` that are shapes, pictures, graphic frames, connectors or groups, in
/// document order. An error when the reader refuses the XML (`PptxError::Xml`) or an
/// attribute that a shape's properties are read from (`PptxError::MalformedAttribute`).
#[verifier::rlimit(30)]
pub fn parse_shapes_from_slide_xml(xml: &[u8]) -> (r: Result<Vec<Shape>, PptxError>)
    ensures
        match shapes_read(xml@) {
            Ok(l) => r matches Ok(v) && shapes_are(v@, l),
            Err(f) => r matches Err(e) && shape_fail_is(e, f),
        },
{
    let n = xml.len();
    let mut reader = xml_reader(xml);
    let ghost ev = xml_events(xml@);
    let ghost mut i: int = 0;
    let mut w = Walk { state: ParseState::Seeking, stack: Vec::new(), sp_depth: None, current: None, nested: None };
    let mut shapes: Vec<Shape> = Vec::new();
    let ghost mut read: Seq<AccumView> = Seq::empty();
    assert(stack_view(w.stack@) =~= Seq::<Seq<u8>>::empty());
    assert(walk_view(w, read) == tree_start());
    loop
        invariant
            ev == xml_events(xml@),
            0 < ev.len() <= n + 1,
            is_final(ev.last()),
            forall|k: int| 0 <= k < ev.len() - 1 ==> !is_final(#[trigger] ev[k]),
            0 <= i < ev.len(),
            reader_events(reader) == ev.subrange(i, ev.len() as int),
            shapes_are(shapes@, read),
            tree_from(ev, 0, tree_start()) == tree_from(ev, i, walk_view(w, read)),
        decreases ev.len() - i,
    {
        let e = next_event(&mut reader);
        proof {
            if i < ev.len() - 1 {
                assert(ev.subrange(i, ev.len() as int).drop_first() == ev.subrange(i + 1, ev.len() as int));
            }
            lemma_tree_step_plain(walk_view(w, read), e@);
        }
        match e {
            XmlEvent::Start(c, k) => {
                if w.start(&c, k, Ghost(read)).is_err() {
                    return Err(PptxError::MalformedAttribute);
                }
            },
            XmlEvent::Empty(c, k) => {
                if w.empty(&c, k, Ghost(read)).is_err() {
                    return Err(PptxError::MalformedAttribute);
                }
            },
            XmlEvent::End(name) => {
                match w.end(&name, Ghost(read)) {
                    Some(a) => {
                        let ghost av = a@;
                        let ghost prev = shapes@;
                        let ghost prev_read = read;
                        let s = a.into_shape();
                        shapes.push(s);
                        proof {
                            read = read.push(av);
                            assert forall|j: int| 0 <= j < shapes@.len() implies shape_is(#[trigger] shapes@[j], read[j]) by {
                                if j < shapes@.len() - 1 {
                                    assert(shapes@[j] == prev[j]);
                                    assert(read[j] == prev_read[j]);
                                }
                            }
                        }
                    },
                    None => {},
                }
            },
            XmlEvent::Eof => {
                return Ok(shapes);
            },
            XmlEvent::Error => {
                return Err(PptxError::Xml);
            },
            XmlEvent::Text(t) => {
                match t {
                    Some(text) => {
                        let esc = crate::text::xml_escape(text.as_str());
                        w.capture_text(esc.as_str(), Ghost(read));
                    },
                    None => {},
                }
            },
            XmlEvent::Ref(name) => {
                let raw = crate::text::string_from_utf8_lossy(name.as_slice());
                let mut t = String::new();
                crate::text::string_push_str(&mut t, "&");
                crate::text::string_push_str(&mut t, raw.as_str());
                crate::text::string_push_str(&mut t, ";");
                assert(t@ =~= ref_text(name@));
                w.capture_text(t.as_str(), Ghost(read));
            },
            XmlEvent::Other => {},
        }
        proof { i = i + 1; }
    }
}


/// Whether what was read of a shape makes a placeholder: a shape, picture or graphic frame
/// with placeholder properties.
pub open spec fn accum_is_placeholder(a: AccumView) -> bool {
    (a.kind == ShapeKind::Sp || a.kind == ShapeKind::Pic || a.kind == ShapeKind::GraphicFrame) && a.placeholder is Some
}

/// The placeholders among what was read, in order.
pub open spec fn placeholders_read(l: Seq<AccumView>) -> Seq<AccumView>
    decreases l.len(),
{
    if l.len() == 0 {
        Seq::empty()
    } else {
        let p = placeholders_read(l.drop_last());
        if accum_is_placeholder(l.last()) { p.push(l.last()) } else { p }
    }
}

/// A shape is a placeholder exactly when what it was read from makes one.
pub proof fn lemma_shape_is_placeholder(s: Shape, a: AccumView)
    requires
        shape_is(s, a),
    ensures
        crate::shapes::model::placeholder_of_shape(s) is Some <==> accum_is_placeholder(a),
{
}

/// The shapes of a slide's XML that are placeholders, in order (see `placeholders_read`).
pub fn placeholder_shapes(xml: &[u8]) -> (r: Result<Vec<Shape>, PptxError>)
    ensures
        match shapes_read(xml@) {
            Ok(l) => r matches Ok(v) && shapes_are(v@, placeholders_read(l)),
            Err(f) => r matches Err(e) && shape_fail_is(e, f),
        },
{
    let all = parse_shapes_from_slide_xml(xml)?;
    let ghost l = shapes_read(xml@)->Ok_0;
    let ghost whole = all@;
    let mut rest = all;
    let mut out: Vec<Shape> = Vec::new();
    let ghost mut i: int = 0;
    assert(l.take(0) =~= Seq::<AccumView>::empty());
    assert(rest@.subrange(0, rest@.len() as int) =~= rest@);
    while rest.len() > 0
        invariant
            shapes_are(whole, l),
            0 <= i <= whole.len(),
            rest@ == whole.subrange(i, whole.len() as int),
            shapes_are(out@, placeholders_read(l.take(i))),
        decreases rest.len(),
    {
        let s = rest.remove(0);
        proof {
            assert(s == whole[i]);
            assert(rest@ =~= whole.subrange(i + 1, whole.len() as int));
            assert(l.take(i + 1).drop_last() =~= l.take(i));
            assert(shape_is(whole[i], l[i]));
            lemma_shape_is_placeholder(s, l[i]);
        }
        let ghost prev = out@;
        if s.is_placeholder() {
            out.push(s);
            proof {
                let pr = placeholders_read(l.take(i + 1));
                assert(pr == placeholders_read(l.take(i)).push(l[i]));
                assert forall|k: int| 0 <= k < out@.len() implies shape_is(#[trigger] out@[k], pr[k]) by {
                    if k < prev.len() {
                        assert(out@[k] == prev[k]);
                    }
                }
            }
        }
        proof { i = i + 1; }
    }
    proof {
        assert(i == whole.len());
        assert(l.take(i) =~= l);
    }
    Ok(out)
}
} // verus!
