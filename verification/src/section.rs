//! Sections of a presentation: a name and the slides that belong to it.
use vstd::prelude::*;

verus! {

/// A section in a presentation.
#[derive(Debug, Clone, PartialEq, Eq)]
pub struct Section {
    /// The display name of the section.
    pub name: String,
    /// The slide indices (0-based) that belong to this section.
    pub slide_indices: Vec<usize>,
}

impl Section {
    /// Create a new section with the given name and starting slide index.
    pub fn new(name: &str, first_slide_index: usize) -> (r: Self)
        ensures
            r.name@ == name@,
            r.slide_indices@ == seq![first_slide_index],
    {
        let mut v = Vec::new();
        v.push(first_slide_index);
        Section { name: name.to_owned(), slide_indices: v }
    }

    /// Create a new section with the given name and multiple slide indices.
    pub fn with_slides(name: &str, slide_indices: Vec<usize>) -> (r: Self)
        ensures
            r.name@ == name@,
            r.slide_indices@ == slide_indices@,
    {
        Section { name: name.to_owned(), slide_indices }
    }
}

} // verus!
