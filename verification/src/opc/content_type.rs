//! Content types of the parts this library reads and writes.
use vstd::prelude::*;

verus! {

pub const PML_PRESENTATION_MAIN: &'static str =
    "application/vnd.openxmlformats-officedocument.presentationml.presentation.main+xml";
pub const PML_PRESENTATION_MACRO: &'static str =
    "application/vnd.ms-powerpoint.presentation.macroEnabled.main+xml";
pub const PML_SLIDE: &'static str =
    "application/vnd.openxmlformats-officedocument.presentationml.slide+xml";
pub const PML_SLIDE_LAYOUT: &'static str =
    "application/vnd.openxmlformats-officedocument.presentationml.slideLayout+xml";
pub const PML_SLIDE_MASTER: &'static str =
    "application/vnd.openxmlformats-officedocument.presentationml.slideMaster+xml";
pub const PML_NOTES_SLIDE: &'static str =
    "application/vnd.openxmlformats-officedocument.presentationml.notesSlide+xml";
pub const PML_NOTES_MASTER: &'static str =
    "application/vnd.openxmlformats-officedocument.presentationml.notesMaster+xml";
pub const OFC_THEME: &'static str = "application/vnd.openxmlformats-officedocument.theme+xml";
pub const OPC_CORE_PROPERTIES: &'static str = "application/vnd.openxmlformats-package.core-properties+xml";
pub const VBA_PROJECT: &'static str = "application/vnd.ms-office.vbaProject";
pub const X_FONTDATA: &'static str = "application/x-fontdata";

} // verus!
