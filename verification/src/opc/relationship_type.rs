//! Relationship types of the relationships this library reads and writes.
use vstd::prelude::*;

verus! {

pub const OFFICE_DOCUMENT: &'static str =
    "http://schemas.openxmlformats.org/officeDocument/2006/relationships/officeDocument";
pub const CORE_PROPERTIES: &'static str =
    "http://schemas.openxmlformats.org/package/2006/relationships/metadata/core-properties";
pub const SLIDE: &'static str = "http://schemas.openxmlformats.org/officeDocument/2006/relationships/slide";
pub const SLIDE_LAYOUT: &'static str =
    "http://schemas.openxmlformats.org/officeDocument/2006/relationships/slideLayout";
pub const SLIDE_MASTER: &'static str =
    "http://schemas.openxmlformats.org/officeDocument/2006/relationships/slideMaster";
pub const NOTES_SLIDE: &'static str =
    "http://schemas.openxmlformats.org/officeDocument/2006/relationships/notesSlide";
pub const NOTES_MASTER: &'static str =
    "http://schemas.openxmlformats.org/officeDocument/2006/relationships/notesMaster";
pub const THEME: &'static str = "http://schemas.openxmlformats.org/officeDocument/2006/relationships/theme";
pub const VBA_PROJECT: &'static str = "http://schemas.microsoft.com/office/2006/relationships/vbaProject";
pub const FONT: &'static str = "http://schemas.openxmlformats.org/officeDocument/2006/relationships/font";

} // verus!
