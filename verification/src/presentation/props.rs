//! The core properties of a presentation: reading and writing `docProps/core.xml`.
use vstd::prelude::*;
use vstd::utf8::encode_utf8;
use crate::core_properties::{CoreProperties, core_of_bytes, core_xml, no_props};
use crate::error::PptxError;
use crate::opc::content_type::OPC_CORE_PROPERTIES;
use crate::opc::load::load_fail_is;
use crate::opc::package::{Part, PackageView, PartView, RelsView, find_type};
use crate::opc::relationship_type::CORE_PROPERTIES;
use crate::opc::uri::{PackURI, base_uri_spec, relative_ref_spec, resolve};
use crate::opc::load::LoadFail;
use super::{Presentation, part_named};
use super::extras::{put, or_added};

verus! {

/// `/docProps/core.xml`
pub open spec fn core_name() -> Seq<char> {
    "/docProps/core.xml"@
}

/// The part `set_core_properties` writes for property values `v`.
pub open spec fn core_part(v: Seq<Seq<char>>) -> PartView {
    PartView {
        partname: core_name(),
        content_type: OPC_CORE_PROPERTIES@,
        blob: encode_utf8(core_xml(v)),
        rels: RelsView { rels: Seq::empty(), base: base_uri_spec(core_name()) },
    }
}

/// The target of the package's relationship to the core properties part: the part's name
/// relative to `/` (`docProps/core.xml`).
pub open spec fn core_target() -> Seq<char> {
    relative_ref_spec(core_name(), seq!['/'])
}

/// What `set_core_properties` gives: the part put in, and a core-properties relationship
/// to it from the package unless one exists.
pub open spec fn core_set(pkg: PackageView, v: Seq<Seq<char>>) -> PackageView {
    PackageView {
        parts: put(pkg.parts, core_part(v)),
        pkg_rels: or_added(pkg.pkg_rels, CORE_PROPERTIES@, core_target()),
    }
}

/// The core properties of a package: read from the part its first core-properties
/// relationship points to, none set without the relationship or the part; `None` when
/// that relationship is external.
pub open spec fn core_props_of(pkg: PackageView) -> Option<Result<Seq<Seq<char>>, LoadFail>> {
    match find_type(pkg.pkg_rels.rels, CORE_PROPERTIES@, 0) {
        None => Some(Ok(no_props())),
        Some(j) => if pkg.pkg_rels.rels[j].is_external {
            None
        } else {
            match part_named(pkg, resolve(pkg.pkg_rels.base, pkg.pkg_rels.rels[j].target_ref)) {
                None => Some(Ok(no_props())),
                Some(p) => Some(core_of_bytes(p.blob)),
            }
        },
    }
}

impl Presentation {
    /// The core properties: read from the part the package's first core-properties
    /// relationship points to; none set without the relationship or the part.
    pub fn core_properties(&self) -> (r: Result<CoreProperties, PptxError>)
        ensures
            match core_props_of(self@) {
                None => r matches Err(e) && e is InvalidXml,
                Some(Ok(v)) => r matches Ok(x) && x@ == v,
                Some(Err(f)) => r matches Err(e) && load_fail_is(e, f),
            },
    {
        proof { self.lemma_view(); }
        let rels = self.package.pkg_rels();
        let rel = match rels.by_reltype(CORE_PROPERTIES) {
            Ok(rel) => rel,
            Err(_) => return Ok(CoreProperties::new()),
        };
        let name = rel.target_partname(rels.base_uri())?;
        match self.package.part(&name) {
            Some(p) => CoreProperties::from_xml(p.blob.as_slice()),
            None => Ok(CoreProperties::new()),
        }
    }

    /// Writes the core properties to `/docProps/core.xml` and relates the package to it
    /// (see `core_set`).
    pub fn set_core_properties(&mut self, props: &CoreProperties) -> (r: Result<(), PptxError>)
        requires
            old(self)@.pkg_rels.rels.len() < usize::MAX,
        ensures
            r is Ok,
            final(self)@ == core_set(old(self)@, props@),
    {
        proof { self.lemma_view(); }
        let name = PackURI::from_string("/docProps/core.xml".to_owned());
        let target = name.relative_ref("/");
        proof { reveal_strlit("/"); }
        assert("/"@ =~= seq!['/']);
        assert(name@ == core_name());
        assert(target@ == core_target());
        let part = Part::new(name, OPC_CORE_PROPERTIES, props.to_xml());
        let ghost before = self@;
        self.package.put_part(part);
        proof {
            reveal_strlit("/docProps/core.xml");
        }
        assert(self@.parts == put(before.parts, core_part(props@)));
        self.package.pkg_rels_mut().or_add(CORE_PROPERTIES, target.as_str(), false);
        proof { self.lemma_view(); }
        assert(self@ =~= core_set(before, props@));
        Ok(())
    }
}

} // verus!
