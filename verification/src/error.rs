//! The error type of the library.
use vstd::prelude::*;

verus! {

/// Errors of the presentation, package and XML operations.
#[derive(Debug, Clone, PartialEq, Eq)]
pub enum PptxError {
    /// XML that could not be read, or a value in it that is out of range; the text says which.
    InvalidXml(String),
    /// A part that is not in the package; holds the part name.
    PartNotFound(String),
    /// A relationship that does not exist; holds the relationship id.
    RelationshipNotFound(String),
    /// An attribute that the XML reader refused.
    MalformedAttribute,
    /// XML that the reader refused.
    Xml,
    /// A package that could not be read from or written to its zip archive; the text says why.
    Package(String),
    /// Reading or writing a stream failed; the text says what.
    Io(String),
    /// Input larger than the library accepts.
    ResourceLimit(String),
    /// A value outside the range that a setting accepts; the text says which.
    InvalidValue(String),
}

} // verus!
