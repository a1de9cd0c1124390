//! Placeholder properties from the `<p:ph>` element.
use vstd::prelude::*;
use crate::enums::{
    PlaceholderOrientation, PlaceholderSize, PpPlaceholderType, ph_orient_token, ph_size_token,
    ph_type_token,
};
use crate::text::{nat_digits, push_u64, string_push_str};
use crate::units::PlaceholderIndex;

verus! {

/// Placeholder properties from the `<p:ph>` element.
#[derive(Debug, Clone, PartialEq, Eq)]
pub struct PlaceholderFormat {
    /// Placeholder type, the `type` attribute.
    pub ph_type: Option<PpPlaceholderType>,
    /// Placeholder index, the `idx` attribute.
    pub idx: PlaceholderIndex,
    /// Placeholder orientation ("horz" or "vert").
    pub orient: Option<PlaceholderOrientation>,
    /// Placeholder size ("full", "half", or "quarter").
    pub sz: Option<PlaceholderSize>,
}

/// The ` type="…"` attribute, when a type is set.
pub open spec fn type_attr(t: Option<PpPlaceholderType>) -> Seq<char> {
    match t {
        Some(t) => " type=\""@ + ph_type_token(t) + "\""@,
        None => Seq::empty(),
    }
}

/// The ` idx="…"` attribute, when the index is positive.
pub open spec fn idx_attr(i: PlaceholderIndex) -> Seq<char> {
    if i.0 > 0 { " idx=\""@ + nat_digits(i.0 as nat) + "\""@ } else { Seq::empty() }
}

/// The ` orient="…"` attribute, when an orientation is set.
pub open spec fn orient_attr(o: Option<PlaceholderOrientation>) -> Seq<char> {
    match o {
        Some(o) => " orient=\""@ + ph_orient_token(o) + "\""@,
        None => Seq::empty(),
    }
}

/// The ` sz="…"` attribute, when a size is set.
pub open spec fn size_attr(s: Option<PlaceholderSize>) -> Seq<char> {
    match s {
        Some(s) => " sz=\""@ + ph_size_token(s) + "\""@,
        None => Seq::empty(),
    }
}

/// The `<p:ph …/>` element of a placeholder: each attribute only when set,
/// `idx` only when positive.
pub open spec fn placeholder_xml(p: PlaceholderFormat) -> Seq<char> {
    "<p:ph"@ + type_attr(p.ph_type) + idx_attr(p.idx) + orient_attr(p.orient) + size_attr(p.sz) + "/>"@
}

pub(crate) fn write_type_attr(out: &mut String, t: Option<PpPlaceholderType>)
    ensures
        final(out)@ == old(out)@ + type_attr(t),
{
    if let Some(pt) = t {
        string_push_str(out, " type=\"");
        string_push_str(out, pt.to_xml_str());
        string_push_str(out, "\"");
    }
    assert(out@ =~= old(out)@ + type_attr(t));
}

pub(crate) fn write_idx_attr(out: &mut String, i: PlaceholderIndex)
    ensures
        final(out)@ == old(out)@ + idx_attr(i),
{
    if i.0 > 0 {
        string_push_str(out, " idx=\"");
        push_u64(out, i.0 as u64);
        string_push_str(out, "\"");
    }
    assert(out@ =~= old(out)@ + idx_attr(i));
}

fn write_orient_attr(out: &mut String, o: Option<PlaceholderOrientation>)
    ensures
        final(out)@ == old(out)@ + orient_attr(o),
{
    if let Some(v) = o {
        string_push_str(out, " orient=\"");
        string_push_str(out, v.to_xml_str());
        string_push_str(out, "\"");
    }
    assert(out@ =~= old(out)@ + orient_attr(o));
}

fn write_size_attr(out: &mut String, s: Option<PlaceholderSize>)
    ensures
        final(out)@ == old(out)@ + size_attr(s),
{
    if let Some(v) = s {
        string_push_str(out, " sz=\"");
        string_push_str(out, v.to_xml_str());
        string_push_str(out, "\"");
    }
    assert(out@ =~= old(out)@ + size_attr(s));
}

impl PlaceholderFormat {
    /// Whether this is a title placeholder (title or centered title).
    pub fn is_title(&self) -> (r: bool)
        ensures
            r == (self.ph_type == Some(PpPlaceholderType::Title)
                || self.ph_type == Some(PpPlaceholderType::CenterTitle)),
    {
        match self.ph_type {
            Some(PpPlaceholderType::Title) => true,
            Some(PpPlaceholderType::CenterTitle) => true,
            _ => false,
        }
    }

    /// Whether this is a body placeholder (body or subtitle).
    pub fn is_body(&self) -> (r: bool)
        ensures
            r == (self.ph_type == Some(PpPlaceholderType::Body)
                || self.ph_type == Some(PpPlaceholderType::Subtitle)),
    {
        match self.ph_type {
            Some(PpPlaceholderType::Body) => true,
            Some(PpPlaceholderType::Subtitle) => true,
            _ => false,
        }
    }

    /// Whether this is a slide-number placeholder.
    pub fn is_slide_number(&self) -> (r: bool)
        ensures
            r == (self.ph_type == Some(PpPlaceholderType::SlideNumber)),
    {
        match self.ph_type {
            Some(PpPlaceholderType::SlideNumber) => true,
            _ => false,
        }
    }

    /// Whether this is a date placeholder.
    pub fn is_date(&self) -> (r: bool)
        ensures
            r == (self.ph_type == Some(PpPlaceholderType::Date)),
    {
        match self.ph_type {
            Some(PpPlaceholderType::Date) => true,
            _ => false,
        }
    }

    /// Whether this is a footer placeholder.
    pub fn is_footer(&self) -> (r: bool)
        ensures
            r == (self.ph_type == Some(PpPlaceholderType::Footer)),
    {
        match self.ph_type {
            Some(PpPlaceholderType::Footer) => true,
            _ => false,
        }
    }

    /// Return the placeholder type.
    pub fn placeholder_type(&self) -> (r: Option<PpPlaceholderType>)
        ensures
            r == self.ph_type,
    {
        self.ph_type
    }

    /// Serialize this placeholder format as a `<p:ph .../>` element string.
    pub fn to_xml_string(&self) -> (r: String)
        ensures
            r@ == placeholder_xml(*self),
    {
        let mut xml = String::new();
        string_push_str(&mut xml, "<p:ph");
        write_type_attr(&mut xml, self.ph_type);
        write_idx_attr(&mut xml, self.idx);
        write_orient_attr(&mut xml, self.orient);
        write_size_attr(&mut xml, self.sz);
        string_push_str(&mut xml, "/>");
        assert(xml@ =~= placeholder_xml(*self));
        xml
    }
}

} // verus!
