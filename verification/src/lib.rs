//! Reading and writing the XML parts of PowerPoint (.pptx) presentations.
pub mod text;
pub mod enums;
pub mod signature;
pub mod embedded_font;
pub mod units;
pub mod error;
pub mod xml;
pub mod print_settings;
pub mod opc;
pub mod scan;
pub mod id_list;
pub mod slide;
pub mod edit;
pub mod presentation;
pub mod repair;
pub mod section;
pub mod shapes;
pub mod smartart;
pub mod theme;
pub mod media;
pub mod core_properties;

use vstd::prelude::*;

verus! {

} // verus!
