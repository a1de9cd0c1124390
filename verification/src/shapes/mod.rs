//! Shape-level XML: click actions, placeholders, freeform geometry, new shapes.
pub mod action;
pub mod placeholder;
pub mod freeform;
pub mod names;
pub mod shapetree;
pub mod model;
pub mod parse;
pub mod text_frame;
pub mod text_xml;
pub mod color;
pub mod fill;
pub mod fill_xml;
