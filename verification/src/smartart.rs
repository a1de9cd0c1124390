//! SmartArt diagrams: the parts that make up one diagram.
use vstd::prelude::*;

verus! {

/// Relationship type from a slide to a diagram's data part.
pub const DIAGRAM_DATA: &'static str =
    "http://schemas.openxmlformats.org/officeDocument/2006/relationships/diagramData";
/// Relationship type from a slide to a diagram's colour part.
pub const DIAGRAM_COLORS: &'static str =
    "http://schemas.openxmlformats.org/officeDocument/2006/relationships/diagramColors";
/// Relationship type from a slide to a diagram's quick-style part.
pub const DIAGRAM_STYLE: &'static str =
    "http://schemas.openxmlformats.org/officeDocument/2006/relationships/diagramQuickStyle";
/// Relationship type from a slide to a diagram's layout part.
pub const DIAGRAM_LAYOUT: &'static str =
    "http://schemas.openxmlformats.org/officeDocument/2006/relationships/diagramLayout";
/// Relationship type from a slide to a diagram's cached drawing part.
pub const DIAGRAM_DRAWING: &'static str =
    "http://schemas.microsoft.com/office/2007/relationships/diagramDrawing";

/// The parts of a SmartArt diagram: the data part, and the colour, style, layout and
/// drawing parts where the slide has them.
#[derive(Debug, Clone, PartialEq, Eq)]
pub struct SmartArt {
    /// The diagram data part (`dgm:dataModel`).
    pub data_xml: Vec<u8>,
    /// The colour definition part.
    pub colors_xml: Option<Vec<u8>>,
    /// The quick-style part.
    pub style_xml: Option<Vec<u8>>,
    /// The layout definition part.
    pub layout_xml: Option<Vec<u8>>,
    /// The cached drawing part.
    pub drawing_xml: Option<Vec<u8>>,
}

/// What a SmartArt diagram holds.
pub struct SmartArtView {
    pub data: Seq<u8>,
    pub colors: Option<Seq<u8>>,
    pub style: Option<Seq<u8>>,
    pub layout: Option<Seq<u8>>,
    pub drawing: Option<Seq<u8>>,
}

/// The bytes an optional part holds.
pub open spec fn opt_bytes(o: Option<Vec<u8>>) -> Option<Seq<u8>> {
    match o {
        Some(v) => Some(v@),
        None => None,
    }
}

impl View for SmartArt {
    type V = SmartArtView;

    open spec fn view(&self) -> SmartArtView {
        SmartArtView {
            data: self.data_xml@,
            colors: opt_bytes(self.colors_xml),
            style: opt_bytes(self.style_xml),
            layout: opt_bytes(self.layout_xml),
            drawing: opt_bytes(self.drawing_xml),
        }
    }
}

} // verus!
