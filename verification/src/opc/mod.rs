//! The Open Packaging Conventions layer: part names, relationships, parts and the package.
pub mod uri;
pub mod content_type;
pub mod relationship_type;
pub mod package;
pub mod archive;
pub mod serialize;
pub mod load;
pub mod roundtrip;
