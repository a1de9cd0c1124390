//! A font embedded in a presentation.
use vstd::prelude::*;

verus! {

/// A font embedded in a presentation: the font file's bytes and the typeface and style
/// that it provides.
#[derive(Debug, Clone, PartialEq, Eq)]
pub struct EmbeddedFont {
    /// The font data (the `.fntdata` part).
    pub font_data: Vec<u8>,
    /// The typeface name, such as `Calibri`.
    pub typeface: String,
    /// Whether this is a bold face.
    pub bold: bool,
    /// Whether this is an italic face.
    pub italic: bool,
}

/// What an embedded font holds.
pub struct FontView {
    pub data: Seq<u8>,
    pub typeface: Seq<char>,
    pub bold: bool,
    pub italic: bool,
}

impl View for EmbeddedFont {
    type V = FontView;

    open spec fn view(&self) -> FontView {
        FontView { data: self.font_data@, typeface: self.typeface@, bold: self.bold, italic: self.italic }
    }
}

impl EmbeddedFont {
    /// A font from its data, typeface and style.
    pub fn from_bytes(font_data: Vec<u8>, typeface: &str, bold: bool, italic: bool) -> (r: Self)
        ensures
            r@ == (FontView { data: font_data@, typeface: typeface@, bold, italic }),
    {
        EmbeddedFont { font_data, typeface: typeface.to_owned(), bold, italic }
    }
}

} // verus!
