//! The zip archive that holds a package, read and written through the `zip` crate.
use vstd::prelude::*;
use std::io::Cursor;
use vstd::string::StringSliceAdditionalSpecFns;

verus! {

#[verifier::external_type_specification]
#[verifier::external_body]
#[verifier::reject_recursive_types(T)]
pub struct ExCursor<T>(std::io::Cursor<T>);

#[verifier::external_type_specification]
#[verifier::external_body]
#[verifier::reject_recursive_types(R)]
pub struct ExZipArchive<R>(zip::ZipArchive<R>);

/// A zip archive being written into memory (`zip::ZipWriter` over a cursor); what it holds
/// is seen only through `writer_files`.
#[verifier::external_body]
pub struct ZipOut {
    w: zip::ZipWriter<Cursor<Vec<u8>>>,
}

/// The entries of the zip archive `data`, as `zip::ZipArchive` reads them: in the order of
/// its central directory, each with its name and its (decompressed) contents, or `None`
/// when they cannot be read; `None` when `data` is not a zip archive.
pub uninterp spec fn zip_listing(data: Seq<u8>) -> Option<Seq<(Seq<char>, Option<Seq<u8>>)>>;

/// The entries of an open archive (see `zip_listing`).
pub uninterp spec fn archive_files(a: zip::ZipArchive<Cursor<Vec<u8>>>) -> Seq<(Seq<char>, Option<Seq<u8>>)>;

/// The files written so far to a zip writer: name and contents, in order.
pub uninterp spec fn writer_files(w: ZipOut) -> Seq<(Seq<char>, Seq<u8>)>;

/// Opens the zip archive in `data` (`zip::ZipArchive::new` over a cursor). Claimed: it
/// opens exactly when `zip_listing` has the data's entries, and then holds them.
#[verifier::external_body]
pub(crate) fn zip_open(data: Vec<u8>) -> (r: Option<zip::ZipArchive<Cursor<Vec<u8>>>>)
    ensures
        r is Some <==> zip_listing(data@) is Some,
        r matches Some(a) ==> archive_files(a) == zip_listing(data@).unwrap(),
{
    zip::ZipArchive::new(Cursor::new(data)).ok()
}

/// The number of entries of an open archive (`zip::ZipArchive::len`).
#[verifier::external_body]
pub(crate) fn zip_count(a: &zip::ZipArchive<Cursor<Vec<u8>>>) -> (r: usize)
    ensures
        r == archive_files(*a).len(),
{
    a.len()
}

/// Entry `i` of an open archive: its name and contents (`zip::ZipArchive::by_index`, then
/// `ZipFile::name` and `read_to_end`). Claimed: they are entry `i` of `archive_files`, and
/// reading changes no entry.
#[verifier::external_body]
pub(crate) fn zip_entry(a: &mut zip::ZipArchive<Cursor<Vec<u8>>>, i: usize) -> (r: Option<(String, Vec<u8>)>)
    requires
        i < archive_files(*old(a)).len(),
    ensures
        archive_files(*final(a)) == archive_files(*old(a)),
        match archive_files(*old(a))[i as int] {
            (n, Some(d)) => r matches Some((s, v)) && s@ == n && v@ == d,
            (_, None) => r is None,
        },
{
    let mut f = a.by_index(i).ok()?;
    let name = f.name().to_owned();
    let mut v = Vec::new();
    std::io::Read::read_to_end(&mut f, &mut v).ok()?;
    Some((name, v))
}

/// A zip writer into memory, with no files yet (`zip::ZipWriter::new` over a cursor).
#[verifier::external_body]
pub(crate) fn zip_writer() -> (r: ZipOut)
    ensures
        writer_files(r) == Seq::<(Seq<char>, Seq<u8>)>::empty(),
{
    ZipOut { w: zip::ZipWriter::new(Cursor::new(Vec::new())) }
}

/// The largest entry this library asks the zip writer to store: below 2 GiB, so that
/// neither the bytes nor their deflated form reach the 4 GiB that needs the zip's
/// large-file option.
pub open spec fn entry_limit() -> int {
    0x8000_0000
}

/// Whether every file is below the entry limit.
pub open spec fn files_fit(files: Seq<(Seq<char>, Seq<u8>)>) -> bool {
    forall|i: int| 0 <= i < files.len() ==> #[trigger] files[i].1.len() < entry_limit()
}

/// Whether no file has name `name`.
pub open spec fn name_free(files: Seq<(Seq<char>, Seq<u8>)>, name: Seq<char>) -> bool {
    forall|i: int| 0 <= i < files.len() ==> #[trigger] files[i].0 != name
}

/// Writes a file (`zip::ZipWriter::start_file` with the default options, then
/// `write_all`) and hands the writer back, or drops it on failure. Claimed: on success the
/// file is the writer's last; it succeeds when no file of that name was written and every
/// file, this one included, is below the entry limit (start_file refuses only a name
/// already written or, in the previous file, a size that needs the large-file option; the
/// cursor never fails). A name over 65535 bytes would make the zip writer panic.
#[verifier::external_body]
pub(crate) fn zip_add(w: ZipOut, name: &str, data: &[u8]) -> (r: Option<ZipOut>)
    requires
        name.spec_bytes().len() <= 65535,
    ensures
        r matches Some(x) ==> writer_files(x) == writer_files(w).push((name@, data@)),
        name_free(writer_files(w), name@) && files_fit(writer_files(w)) && data@.len() < entry_limit() ==> r is Some,
{
    let mut w = w;
    if w.w.start_file(name, zip::write::SimpleFileOptions::default()).is_err() {
        return None;
    }
    match std::io::Write::write_all(&mut w.w, data) {
        Ok(()) => Some(w),
        Err(_) => None,
    }
}

/// The files as a read of the archive gives them back: each with its contents.
pub open spec fn as_read(files: Seq<(Seq<char>, Seq<u8>)>) -> Seq<(Seq<char>, Option<Seq<u8>>)> {
    files.map_values(|f: (Seq<char>, Seq<u8>)| (f.0, Some(f.1)))
}

/// Finishes the archive and hands out its bytes (`zip::ZipWriter::finish`, then
/// `Cursor::into_inner`). Claimed: reading the bytes back gives the files written, in
/// order; finishing succeeds when every file is below the entry limit (the last file's
/// size is the one check left, and the cursor never fails).
#[verifier::external_body]
pub(crate) fn zip_finish(w: ZipOut) -> (r: Option<Vec<u8>>)
    ensures
        r matches Some(b) ==> zip_listing(b@) == Some(as_read(writer_files(w))),
        files_fit(writer_files(w)) ==> r is Some,
{
    match w.w.finish() {
        Ok(c) => Some(c.into_inner()),
        Err(_) => None,
    }
}

} // verus!
