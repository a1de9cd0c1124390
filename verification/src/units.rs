//! Small value types: relationship ids and placeholder indices.
use vstd::prelude::*;
use crate::text::{push_u64, nat_digits};

verus! {

/// A relationship id such as `rId5`; never empty.
#[derive(Debug, Clone, PartialEq, Eq, Hash)]
pub struct RelationshipId(String);

impl View for RelationshipId {
    type V = Seq<char>;

    closed spec fn view(&self) -> Seq<char> {
        self.0@
    }
}

impl RelationshipId {
    /// Make a relationship id from text; refused when the text is empty.
    pub fn try_from(s: &str) -> (r: Result<RelationshipId, ()>)
        ensures
            s@.len() == 0 <==> r is Err,
            r matches Ok(id) ==> id@ == s@,
    {
        let owned = s.to_owned();
        let chars = crate::text::str_to_chars(s);
        if chars.len() == 0 {
            Err(())
        } else {
            Ok(RelationshipId(owned))
        }
    }

    /// A copy of this id.
    pub fn copied(&self) -> (r: RelationshipId)
        ensures
            r@ == self@,
    {
        RelationshipId(self.0.clone())
    }

    /// The id as text.
    pub fn as_str(&self) -> (r: &str)
        ensures
            r@ == self@,
    {
        self.0.as_str()
    }
}

/// The id of a shape within its slide (`id` of `<p:cNvPr>`).
#[derive(Debug, Clone, Copy, PartialEq, Eq, Structural)]
pub struct ShapeId(pub u32);

/// A length in English Metric Units (914400 per inch, 12700 per point).
#[derive(Debug, Clone, Copy, PartialEq, Eq, Structural)]
pub struct Emu(pub i64);

/// Placeholder index, the `idx` attribute of `<p:ph>`.
#[derive(Debug, Clone, Copy, PartialEq, Eq, Structural)]
pub struct PlaceholderIndex(pub u32);

impl PlaceholderIndex {
    /// The decimal text of the index.
    pub fn to_string(&self) -> (r: String)
        ensures
            r@ == nat_digits(self.0 as nat),
    {
        let mut s = String::new();
        push_u64(&mut s, self.0 as u64);
        s
    }
}

} // verus!
