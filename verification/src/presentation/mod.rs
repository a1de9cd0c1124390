//! A PowerPoint presentation: the package of a .pptx file and the operations on its
//! slides, layouts, notes, print settings, macros and signatures.
pub mod template;
pub mod slides;
pub mod layouts;
pub mod notes;
pub mod extras;
pub mod signatures;
pub mod fonts;
pub mod slide_props;
pub mod media;
pub mod props;
pub mod laws;

pub use slides::{SlideRef, resolved_refs, slides_of, slide_list, index_of_part};
pub use layouts::{SlideLayoutRef, SlideMasterRef};
pub use notes::{NotesMasterRef, NotesSlide, NotesSlideRef};
pub use signatures::parse_signature_xml;

use vstd::prelude::*;
use crate::error::PptxError;
use crate::opc::package::{OpcPackage, PackageView, PartView, part_by_reltype_spec, find_type, find_part};
use crate::opc::relationship_type::OFFICE_DOCUMENT;
use crate::opc::uri::{PackURI, base_uri_spec, resolve};
use crate::opc::archive::{as_read, zip_listing};
use crate::opc::load::{LoadFail, load_fail_is, package_from_bytes, package_from_bytes_exec};
use crate::opc::serialize::{entries_fit, package_entries, package_fits, package_to_bytes};
use crate::opc::roundtrip::archivable;

verus! {

/// A PowerPoint presentation: an OPC package whose main part is presentation.xml.
#[must_use]
pub struct Presentation {
    package: OpcPackage,
}

impl View for Presentation {
    type V = PackageView;

    closed spec fn view(&self) -> PackageView {
        self.package@
    }
}

/// Index of the presentation part: the part that the package's first officeDocument
/// relationship points to.
pub open spec fn pres_index(pkg: PackageView) -> Option<int> {
    part_by_reltype_spec(pkg, OFFICE_DOCUMENT@)
}

/// The name the package's first officeDocument relationship gives, whether or not a part
/// has it; `None` without such a relationship or when it is external.
pub open spec fn pres_name(pkg: PackageView) -> Option<Seq<char>> {
    match find_type(pkg.pkg_rels.rels, OFFICE_DOCUMENT@, 0) {
        Some(i) => if pkg.pkg_rels.rels[i].is_external {
            None
        } else {
            Some(resolve(pkg.pkg_rels.base, pkg.pkg_rels.rels[i].target_ref))
        },
        None => None,
    }
}

/// The directory of a part, against which its relationships are resolved.
pub open spec fn part_dir(p: PartView) -> Seq<char> {
    base_uri_spec(p.partname)
}

/// The package with the bytes of part `i` replaced.
pub open spec fn with_blob(pkg: PackageView, i: int, b: Seq<u8>) -> PackageView {
    PackageView { parts: pkg.parts.update(i, PartView { blob: b, ..pkg.parts[i] }), pkg_rels: pkg.pkg_rels }
}

/// The first part named `name`, if any.
pub open spec fn part_named(pkg: PackageView, name: Seq<char>) -> Option<PartView> {
    match find_part(pkg.parts, name, 0) {
        Some(i) => Some(pkg.parts[i]),
        None => None,
    }
}

/// The presentation part, when there is one, is a part of the package, named as the
/// officeDocument relationship says, and the first part with that name.
pub proof fn lemma_pres_index(pkg: PackageView)
    ensures
        pres_index(pkg) matches Some(i) ==> 0 <= i < pkg.parts.len() && pres_name(pkg) == Some(pkg.parts[i].partname)
            && find_part(pkg.parts, pkg.parts[i].partname, 0) == Some(i),
        pres_name(pkg) matches Some(n) ==> pres_index(pkg) == find_part(pkg.parts, n, 0),
{
    if let Some(n) = pres_name(pkg) {
        crate::opc::package::lemma_find_part_found(pkg.parts, n, 0);
    }
}

impl Presentation {
    proof fn lemma_view(&self)
        ensures
            self@ == self.package@,
    {
    }
}

/// The largest input, in bytes, that `Presentation::from_reader` accepts (500 MB).
pub const MAX_INPUT_SIZE: u64 = 524288000;

/// Reads a stream to its end (`std::io::Read::read_to_end`); `None` when reading fails.
/// Nothing is claimed of the bytes: they are whatever the stream gives.
#[verifier::external_body]
fn read_all<R: std::io::Read>(reader: R) -> (r: Option<Vec<u8>>) {
    let mut reader = reader;
    let mut buf = Vec::new();
    match std::io::Read::read_to_end(&mut reader, &mut buf) {
        Ok(_) => Some(buf),
        Err(_) => None,
    }
}

/// The reader behind `std::io::Read::take`, which stops after a given number of bytes.
#[verifier::external_type_specification]
#[verifier::external_body]
#[verifier::reject_recursive_types(R)]
pub struct ExTake<R>(std::io::Take<R>);

/// A reader that yields at most `limit` bytes of `reader` (`std::io::Read::take`).
/// Nothing is claimed of what it yields.
#[verifier::external_body]
fn take_at_most<R: std::io::Read>(reader: R, limit: u64) -> (r: std::io::Take<R>) {
    std::io::Read::take(reader, limit)
}

/// Tries to read one more byte from a stream (`std::io::Read::read` into a one-byte
/// buffer): `Some(true)` when a byte came, `Some(false)` at the end of the stream, `None`
/// when reading fails. Nothing is claimed of which holds.
#[verifier::external_body]
fn read_one_more<R: std::io::Read>(reader: &mut R) -> (r: Option<bool>) {
    let mut extra = [0u8; 1];
    match std::io::Read::read(reader, &mut extra) {
        Ok(k) => Some(k > 0),
        Err(_) => None,
    }
}

/// Writes all of `data` to a stream (`std::io::Write::write_all`); `false` when writing
/// fails. Nothing is claimed of the stream.
#[verifier::external_body]
fn write_all_bytes<W: std::io::Write>(writer: W, data: &[u8]) -> (r: bool) {
    let mut writer = writer;
    std::io::Write::write_all(&mut writer, data).is_ok()
}

/// Core methods: creation and access to the package.
impl Presentation {
    /// A new presentation from the built-in default template: one slide master with
    /// eleven layouts and a theme, a 4:3 slide size, and no slides.
    pub fn new() -> (r: Result<Presentation, PptxError>)
        ensures
            r matches Ok(p) && p@ == template::template_package(),
    {
        Ok(Presentation { package: template::default_package() })
    }

    /// A presentation from the bytes of a .pptx file (see `package_from_bytes`).
    pub fn from_bytes(data: &[u8]) -> (r: Result<Presentation, PptxError>)
        ensures
            match package_from_bytes(data@) {
                Ok(p) => r matches Ok(x) && x@ == p,
                Err(f) => r matches Err(e) && load_fail_is(e, f),
            },
    {
        let package = package_from_bytes_exec(vstd::slice::slice_to_vec(data))?;
        Ok(Presentation { package })
    }

    /// The bytes of the .pptx file of this presentation: a zip archive whose entries are
    /// those `package_entries` gives. It succeeds when the entries have distinct names and
    /// fit a zip entry (`package_fits`), which holds of every archivable package whose
    /// entries fit; otherwise the zip writer's refusal is a package error.
    pub fn to_bytes(&self) -> (r: Result<Vec<u8>, PptxError>)
        ensures
            r matches Ok(b) ==> zip_listing(b@) == Some(as_read(package_entries(self@))),
            r matches Err(e) ==> e is Package,
            package_fits(self@) ==> r is Ok,
            archivable(self@) && entries_fit(package_entries(self@)) ==> r is Ok,
    {
        proof {
            self.lemma_view();
            if archivable(self@) {
                crate::opc::roundtrip::lemma_archivable_distinct(self@);
            }
        }
        package_to_bytes(&self.package)
    }

    /// The bytes of this presentation as a macro-enabled (.pptm) file: the presentation
    /// part is first given the macro-enabled content type (see `mark_macro_enabled`).
    pub fn to_pptm_bytes(&mut self) -> (r: Result<Vec<u8>, PptxError>)
        ensures
            pres_index(old(self)@) is None ==> r is Err && final(self)@ == old(self)@,
            pres_index(old(self)@) matches Some(pi) ==> final(self)@ == (PackageView {
                parts: old(self)@.parts.update(pi, PartView { content_type: crate::opc::content_type::PML_PRESENTATION_MACRO@, ..old(self)@.parts[pi] }),
                pkg_rels: old(self)@.pkg_rels,
            }),
            r matches Ok(b) ==> zip_listing(b@) == Some(as_read(package_entries(final(self)@))),
            pres_index(old(self)@) is Some && package_fits(final(self)@) ==> r is Ok,
    {
        self.mark_macro_enabled()?;
        self.to_bytes()
    }

    /// A presentation from what reading a stream gave: `None` (the stream could not be
    /// read) is an I/O error, input over 500 MB is refused, and other bytes are opened as
    /// `from_bytes` opens them.
    pub fn from_read_result(read: Option<Vec<u8>>) -> (r: Result<Presentation, PptxError>)
        ensures
            match read {
                None => r matches Err(e) && e is Io,
                Some(d) => if d@.len() > MAX_INPUT_SIZE {
                    r matches Err(e) && e is ResourceLimit
                } else {
                    match package_from_bytes(d@) {
                        Ok(p) => r matches Ok(x) && x@ == p,
                        Err(f) => r matches Err(e) && load_fail_is(e, f),
                    }
                },
            },
    {
        let data = match read {
            Some(d) => d,
            None => return Err(PptxError::Io("the stream could not be read".to_owned())),
        };
        if data.len() as u64 > MAX_INPUT_SIZE {
            return Err(PptxError::ResourceLimit("input exceeds the maximum size".to_owned()));
        }
        Presentation::from_bytes(data.as_slice())
    }

    /// A presentation read from a stream: at most 500 MB of it is read, and a stream with
    /// a byte beyond that is refused (see `from_read_result`).
    pub fn from_reader<R: std::io::Read>(reader: R) -> (r: Result<Presentation, PptxError>)
        ensures
            r matches Ok(p) ==> exists|d: Seq<u8>| d.len() <= MAX_INPUT_SIZE && #[trigger] package_from_bytes(d) == Ok::<PackageView, LoadFail>(p@),
            r matches Err(e) ==> e is Io || e is ResourceLimit || exists|d: Seq<u8>| d.len() <= MAX_INPUT_SIZE
                && (#[trigger] package_from_bytes(d) matches Err(f) && load_fail_is(e, f)),
    {
        let mut reader = reader;
        let read = read_all(take_at_most(&mut reader, MAX_INPUT_SIZE));
        if read.is_some() {
            match read_one_more(&mut reader) {
                None => return Err(PptxError::Io("the stream could not be read".to_owned())),
                Some(true) => return Err(PptxError::ResourceLimit("input exceeds the maximum size".to_owned())),
                Some(false) => {},
            }
        }
        let ghost g = read;
        let r = Presentation::from_read_result(read);
        proof {
            if let Some(d) = g {
                if d@.len() <= MAX_INPUT_SIZE {
                    assert(package_from_bytes(d@) == package_from_bytes(d@));
                }
            }
        }
        r
    }

    /// Writes the .pptx file of this presentation to a stream: the bytes `to_bytes` gives.
    pub fn write_to<W: std::io::Write>(&self, writer: W) -> (r: Result<(), PptxError>)
        ensures
            r is Ok ==> exists|b: Seq<u8>| zip_listing(b) == Some(as_read(package_entries(self@))),
            r matches Err(e) ==> e is Package || e is Io,
            r matches Err(e) ==> (package_fits(self@) ==> e is Io),
    {
        let bytes = self.to_bytes()?;
        if write_all_bytes(writer, bytes.as_slice()) {
            Ok(())
        } else {
            Err(PptxError::Io("the stream could not be written".to_owned()))
        }
    }

    /// A presentation over an existing package.
    pub fn from_package(package: OpcPackage) -> (r: Presentation)
        ensures
            r@ == package@,
    {
        Presentation { package }
    }

    /// The underlying package.
    pub fn package(&self) -> (r: &OpcPackage)
        ensures
            r@ == self@,
    {
        &self.package
    }

    /// The underlying package, for changes.
    pub fn package_mut(&mut self) -> (r: &mut OpcPackage)
        ensures
            r@ == old(self)@,
            final(self)@ == final(r)@,
    {
        &mut self.package
    }

    /// Position of the presentation part.
    pub(crate) fn presentation_part_index(&self) -> (r: Result<usize, PptxError>)
        ensures
            match pres_index(self@) {
                Some(i) => r matches Ok(x) && x as int == i && i < self@.parts.len(),
                None => r is Err,
            },
    {
        proof { self.lemma_view(); lemma_pres_index(self@); }
        let rel = self.package.pkg_rels().by_reltype(OFFICE_DOCUMENT)?;
        let name = rel.target_partname(self.package.pkg_rels().base_uri())?;
        match self.package.part_index(name.as_str()) {
            Some(i) => Ok(i),
            None => Err(PptxError::PartNotFound(name.to_string())),
        }
    }

    /// The presentation part (the main XML part).
    pub(crate) fn presentation_part(&self) -> (r: Result<&crate::opc::package::Part, PptxError>)
        ensures
            match pres_index(self@) {
                Some(i) => r matches Ok(p) && p@ == self@.parts[i],
                None => r is Err,
            },
    {
        proof { self.lemma_view(); }
        self.package.part_by_reltype(OFFICE_DOCUMENT)
    }

    /// The part name of the presentation part.
    pub(crate) fn presentation_partname(&self) -> (r: Result<PackURI, PptxError>)
        ensures
            match pres_name(self@) {
                Some(n) => r matches Ok(u) && u@ == n,
                None => r is Err,
            },
    {
        proof { self.lemma_view(); }
        let rel = self.package.pkg_rels().by_reltype(OFFICE_DOCUMENT)?;
        rel.target_partname(self.package.pkg_rels().base_uri())
    }
}

} // verus!
