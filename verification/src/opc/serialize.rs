//! Writing a package as the entries of a zip archive: `[Content_Types].xml`, the
//! relationship parts, and every part.
use vstd::prelude::*;
use vstd::utf8::encode_utf8;
use crate::error::PptxError;
use crate::opc::archive::{ZipOut, as_read, entry_limit, files_fit, name_free, writer_files, zip_add, zip_finish, zip_listing, zip_writer};
use vstd::string::StringSliceAdditionalSpecFns;
use crate::opc::package::{OpcPackage, Part, PackageView, PartView, RelView, Relationship, Relationships, part_views, rel_views};
use crate::opc::uri::{base_uri_spec, base_uri_of};
use crate::text::{push_escaped, str_to_chars, string_into_bytes, string_push, string_push_str, xml_escape_spec};

verus! {

/// The declaration that starts each XML part this module writes.
pub open spec fn xml_header() -> Seq<char> {
    "<?xml version=\"1.0\" encoding=\"UTF-8\" standalone=\"yes\"?>\n"@
}

/// The `<Override>` of a part.
pub open spec fn override_xml(p: PartView) -> Seq<char> {
    "<Override PartName=\""@ + xml_escape_spec(p.partname) + "\" ContentType=\""@ + xml_escape_spec(p.content_type)
        + "\"/>"@
}

/// The `<Override>` elements of the parts, in order.
pub open spec fn overrides_xml(parts: Seq<PartView>) -> Seq<char>
    decreases parts.len(),
{
    if parts.len() == 0 {
        Seq::empty()
    } else {
        overrides_xml(parts.drop_last()) + override_xml(parts.last())
    }
}

/// The start of `[Content_Types].xml`: the root element and the defaults for `.rels` and
/// `.xml` entries.
pub open spec fn types_start() -> Seq<char> {
    "<Types xmlns=\"http://schemas.openxmlformats.org/package/2006/content-types\"><Default Extension=\"rels\" ContentType=\"application/vnd.openxmlformats-package.relationships+xml\"/><Default Extension=\"xml\" ContentType=\"application/xml\"/>"@
}

/// `[Content_Types].xml`: an `<Override>` with the content type of every part.
pub open spec fn content_types_xml(parts: Seq<PartView>) -> Seq<char> {
    xml_header() + types_start() + overrides_xml(parts) + "</Types>"@
}

/// The `<Relationship>` element of a relationship.
pub open spec fn rel_xml(r: RelView) -> Seq<char> {
    "<Relationship Id=\""@ + xml_escape_spec(r.r_id) + "\" Type=\""@ + xml_escape_spec(r.rel_type) + "\" Target=\""@
        + xml_escape_spec(r.target_ref) + (if r.is_external { "\" TargetMode=\"External\"/>"@ } else { "\"/>"@ })
}

/// The `<Relationship>` elements, in order.
pub open spec fn rel_list_xml(rels: Seq<RelView>) -> Seq<char>
    decreases rels.len(),
{
    if rels.len() == 0 {
        Seq::empty()
    } else {
        rel_list_xml(rels.drop_last()) + rel_xml(rels.last())
    }
}

/// A relationships part.
pub open spec fn rels_xml(rels: Seq<RelView>) -> Seq<char> {
    xml_header() + "<Relationships xmlns=\"http://schemas.openxmlformats.org/package/2006/relationships\">"@
        + rel_list_xml(rels) + "</Relationships>"@
}

/// The last segment of a part name: what follows its last `/`.
pub open spec fn file_name_spec(p: Seq<char>) -> Seq<char>
    decreases p.len(),
{
    if p.len() == 0 || p.last() == '/' {
        Seq::empty()
    } else {
        file_name_spec(p.drop_last()).push(p.last())
    }
}

/// The name of the relationships part of part `p`: `_rels/<file>.rels` in its directory.
pub open spec fn rels_partname(p: Seq<char>) -> Seq<char> {
    let dir = base_uri_spec(p);
    (if dir == seq!['/'] { dir } else { dir.push('/') }) + "_rels/"@ + file_name_spec(p) + ".rels"@
}

/// The zip entry name of a part name: without its leading `/`.
pub open spec fn member_name(p: Seq<char>) -> Seq<char> {
    if p.len() > 0 && p[0] == '/' { p.drop_first() } else { p }
}

/// The entries of one part: its bytes, then its relationships part when it has any.
pub open spec fn part_entries(p: PartView) -> Seq<(Seq<char>, Seq<u8>)> {
    if p.rels.rels.len() == 0 {
        seq![(member_name(p.partname), p.blob)]
    } else {
        seq![(member_name(p.partname), p.blob), (member_name(rels_partname(p.partname)), encode_utf8(rels_xml(p.rels.rels)))]
    }
}

/// The entries of the parts, in order.
pub open spec fn parts_entries(parts: Seq<PartView>) -> Seq<(Seq<char>, Seq<u8>)>
    decreases parts.len(),
{
    if parts.len() == 0 {
        Seq::empty()
    } else {
        parts_entries(parts.drop_last()) + part_entries(parts.last())
    }
}

/// `[Content_Types].xml`
pub open spec fn types_member() -> Seq<char> {
    "[Content_Types].xml"@
}

/// `_rels/.rels`
pub open spec fn package_rels_member() -> Seq<char> {
    "_rels/.rels"@
}

/// The entries of the zip archive of a package: `[Content_Types].xml`, the package
/// relationships, then each part with its relationships.
pub open spec fn package_entries(pkg: PackageView) -> Seq<(Seq<char>, Seq<u8>)> {
    seq![
        (types_member(), encode_utf8(content_types_xml(pkg.parts))),
        (package_rels_member(), encode_utf8(rels_xml(pkg.pkg_rels.rels))),
    ] + parts_entries(pkg.parts)
}

/// The last segment of a part name (see `file_name_spec`).
pub fn file_name_of(p: &str) -> (r: String)
    ensures
        r@ == file_name_spec(p@),
{
    let c = str_to_chars(p);
    let mut n: usize = c.len();
    assert(c@.subrange(0, n as int) =~= c@);
    assert(c@.subrange(n as int, c@.len() as int) =~= Seq::<char>::empty());
    while n > 0 && c[n - 1] != '/'
        invariant
            n <= c.len(),
            c@ == p@,
            file_name_spec(c@) == file_name_spec(c@.subrange(0, n as int)) + c@.subrange(n as int, c@.len() as int),
        decreases n,
    {
        let ghost pre = c@.subrange(0, n as int);
        assert(pre.drop_last() =~= c@.subrange(0, n - 1));
        assert(pre.last() == c@[n - 1]);
        assert(c@.subrange(n - 1, c@.len() as int) =~= seq![c@[n - 1]] + c@.subrange(n as int, c@.len() as int));
        n = n - 1;
    }
    let mut out = String::new();
    let mut i: usize = n;
    assert(c@.subrange(n as int, n as int) =~= Seq::<char>::empty());
    while i < c.len()
        invariant
            n <= i <= c.len(),
            out@ == c@.subrange(n as int, i as int),
        decreases c.len() - i,
    {
        string_push(&mut out, c[i]);
        assert(c@.subrange(n as int, i + 1) =~= c@.subrange(n as int, i as int).push(c@[i as int]));
        i = i + 1;
    }
    out
}

/// The name of the relationships part of a part (see `rels_partname`).
pub fn rels_partname_of(p: &str) -> (r: String)
    ensures
        r@ == rels_partname(p@),
{
    let dir = base_uri_of(p);
    let mut out = String::new();
    string_push_str(&mut out, dir.as_str());
    let dc = str_to_chars(dir.as_str());
    if !(dc.len() == 1 && dc[0] == '/') {
        string_push(&mut out, '/');
    } else {
        assert(dir@ =~= seq!['/']);
    }
    string_push_str(&mut out, "_rels/");
    let f = file_name_of(p);
    string_push_str(&mut out, f.as_str());
    string_push_str(&mut out, ".rels");
    out
}

/// The zip entry name of a part name (see `member_name`).
pub fn member_name_of(p: &str) -> (r: String)
    ensures
        r@ == member_name(p@),
{
    let c = str_to_chars(p);
    let mut out = String::new();
    let start: usize = if c.len() > 0 && c[0] == '/' { 1 } else { 0 };
    let mut i: usize = start;
    assert(c@.subrange(start as int, start as int) =~= Seq::<char>::empty());
    while i < c.len()
        invariant
            start <= i <= c.len(),
            out@ == c@.subrange(start as int, i as int),
        decreases c.len() - i,
    {
        string_push(&mut out, c[i]);
        assert(c@.subrange(start as int, i + 1) =~= c@.subrange(start as int, i as int).push(c@[i as int]));
        i = i + 1;
    }
    assert(c@.subrange(start as int, c@.len() as int) =~= member_name(p@));
    out
}

/// Writes a relationships part (see `rels_xml`).
pub fn rels_xml_of(rels: &Vec<Relationship>) -> (r: String)
    ensures
        r@ == rels_xml(rel_views(rels@)),
{
    let mut s = String::new();
    string_push_str(&mut s, "<?xml version=\"1.0\" encoding=\"UTF-8\" standalone=\"yes\"?>\n");
    string_push_str(&mut s, "<Relationships xmlns=\"http://schemas.openxmlformats.org/package/2006/relationships\">");
    let ghost start = s@;
    let ghost rv = rel_views(rels@);
    let mut i: usize = 0;
    while i < rels.len()
        invariant
            i <= rels.len(),
            rv == rel_views(rels@),
            s@ == start + rel_list_xml(rv.take(i as int)),
        decreases rels.len() - i,
    {
        assert(rv.take(i as int + 1).drop_last() =~= rv.take(i as int));
        assert(rv[i as int] == rels@[i as int]@);
        let r = &rels[i];
        string_push_str(&mut s, "<Relationship Id=\"");
        push_escaped(&mut s, r.r_id.as_str());
        string_push_str(&mut s, "\" Type=\"");
        push_escaped(&mut s, r.rel_type.as_str());
        string_push_str(&mut s, "\" Target=\"");
        push_escaped(&mut s, r.target_ref.as_str());
        if r.is_external {
            string_push_str(&mut s, "\" TargetMode=\"External\"/>");
        } else {
            string_push_str(&mut s, "\"/>");
        }
        assert(s@ =~= start + rel_list_xml(rv.take(i as int)) + rel_xml(rv[i as int]));
        i = i + 1;
    }
    assert(rv.take(i as int) =~= rv);
    string_push_str(&mut s, "</Relationships>");
    assert(s@ =~= rels_xml(rv));
    s
}

/// Writes `[Content_Types].xml` (see `content_types_xml`).
pub fn content_types_xml_of(parts: &Vec<Part>) -> (r: String)
    ensures
        r@ == content_types_xml(part_views(parts@)),
{
    let mut s = String::new();
    string_push_str(&mut s, "<?xml version=\"1.0\" encoding=\"UTF-8\" standalone=\"yes\"?>\n");
    string_push_str(&mut s, "<Types xmlns=\"http://schemas.openxmlformats.org/package/2006/content-types\"><Default Extension=\"rels\" ContentType=\"application/vnd.openxmlformats-package.relationships+xml\"/><Default Extension=\"xml\" ContentType=\"application/xml\"/>");
    let ghost start = s@;
    assert(start == xml_header() + types_start());
    let ghost pv = part_views(parts@);
    let mut i: usize = 0;
    while i < parts.len()
        invariant
            i <= parts.len(),
            pv == part_views(parts@),
            s@ == start + overrides_xml(pv.take(i as int)),
        decreases parts.len() - i,
    {
        assert(pv.take(i as int + 1).drop_last() =~= pv.take(i as int));
        assert(pv[i as int] == parts@[i as int]@);
        let p = &parts[i];
        string_push_str(&mut s, "<Override PartName=\"");
        push_escaped(&mut s, p.partname.as_str());
        string_push_str(&mut s, "\" ContentType=\"");
        push_escaped(&mut s, p.content_type.as_str());
        string_push_str(&mut s, "\"/>");
        assert(s@ =~= start + overrides_xml(pv.take(i as int)) + override_xml(pv[i as int]));
        i = i + 1;
    }
    assert(pv.take(i as int) =~= pv);
    string_push_str(&mut s, "</Types>");
    assert(s@ =~= content_types_xml(pv));
    s
}

/// Whether no two entries share a name.
pub open spec fn entries_distinct(es: Seq<(Seq<char>, Seq<u8>)>) -> bool {
    forall|i: int, j: int| 0 <= i < j < es.len() ==> #[trigger] es[i].0 != #[trigger] es[j].0
}

/// Whether every entry's name takes at most 65535 bytes and its contents are below the
/// entry limit: the sizes a zip entry written without the large-file option allows.
pub open spec fn entries_fit(es: Seq<(Seq<char>, Seq<u8>)>) -> bool {
    forall|i: int| 0 <= i < es.len() ==> encode_utf8((#[trigger] es[i]).0).len() <= 65535 && es[i].1.len() < entry_limit()
}

/// Whether the entries of a package can all be written: distinct names and sizes that fit.
pub open spec fn package_fits(pkg: PackageView) -> bool {
    entries_distinct(package_entries(pkg)) && entries_fit(package_entries(pkg))
}

/// Entry `k` of entries that can all be written can be written after the first `k`.
proof fn lemma_entry_writable(es: Seq<(Seq<char>, Seq<u8>)>, k: int)
    requires
        0 <= k < es.len(),
        entries_distinct(es),
        entries_fit(es),
    ensures
        name_free(es.take(k), es[k].0),
        files_fit(es.take(k)),
        es[k].1.len() < entry_limit(),
        encode_utf8(es[k].0).len() <= 65535,
{
    assert forall|i: int| 0 <= i < es.take(k).len() implies #[trigger] es.take(k)[i].0 != es[k].0 by {
        assert(es.take(k)[i] == es[i]);
    }
    assert forall|i: int| 0 <= i < es.take(k).len() implies #[trigger] es.take(k)[i].1.len() < entry_limit() by {
        assert(es.take(k)[i] == es[i]);
    }
    assert(es[k] == es[k]);
}

/// The entries of the parts from `i` on: those of part `i`, then the rest.
proof fn lemma_entries_split(pv: Seq<PartView>, i: int)
    requires
        0 <= i < pv.len(),
    ensures
        parts_entries(pv.skip(i)) == part_entries(pv[i]) + parts_entries(pv.skip(i + 1)),
{
    crate::opc::roundtrip::lemma_parts_entries_first(pv.skip(i));
    assert(pv.skip(i)[0] == pv[i]);
    assert(pv.skip(i).drop_first() =~= pv.skip(i + 1));
}

/// Writes one entry and hands the writer back, failing with a package error when the
/// name takes more than 65535 bytes or the writer refuses the entry; it is written when
/// its name is free, it fits, and the files before it fit.
fn write_entry(w: ZipOut, name: &str, data: &[u8]) -> (r: Result<ZipOut, PptxError>)
    ensures
        r matches Ok(x) ==> writer_files(x) == writer_files(w).push((name@, data@)),
        r matches Err(e) ==> e is Package,
        name.spec_bytes().len() <= 65535 && name_free(writer_files(w), name@) && files_fit(writer_files(w))
            && data@.len() < entry_limit() ==> r is Ok,
{
    if name.as_bytes().len() > 65535 {
        return Err(PptxError::Package(name.to_owned()));
    }
    match zip_add(w, name, data) {
        Some(x) => Ok(x),
        None => Err(PptxError::Package(name.to_owned())),
    }
}

/// The bytes of the zip archive of a package: its entries (see `package_entries`) written
/// in order. On success, reading the archive gives those entries back; it succeeds when
/// the entries have distinct names and fit (see `package_fits`), and a refusal of the zip
/// writer is a package error.
#[verifier::rlimit(50)]
pub fn package_to_bytes(pkg: &OpcPackage) -> (r: Result<Vec<u8>, PptxError>)
    ensures
        r matches Ok(b) ==> zip_listing(b@) == Some(as_read(package_entries(pkg@))),
        r matches Err(e) ==> e is Package,
        package_fits(pkg@) ==> r is Ok,
{
    let parts = pkg.parts();
    let ghost pv = part_views(parts@);
    let ghost es = package_entries(pkg@);
    let ghost fits = package_fits(pkg@);
    let w = zip_writer();
    let ct = content_types_xml_of(parts);
    proof {
        if fits {
            lemma_entry_writable(es, 0);
            assert(es.take(0) =~= writer_files(w));
        }
    }
    let w = write_entry(w, "[Content_Types].xml", string_into_bytes(ct).as_slice())?;
    let prels = rels_xml_of(pkg.pkg_rels().as_vec());
    proof {
        if fits {
            lemma_entry_writable(es, 1);
            assert(es.take(1) =~= writer_files(w));
        }
    }
    let mut w = write_entry(w, "_rels/.rels", string_into_bytes(prels).as_slice())?;
    let ghost head = seq![
        (types_member(), encode_utf8(content_types_xml(pkg@.parts))),
        (package_rels_member(), encode_utf8(rels_xml(pkg@.pkg_rels.rels))),
    ];
    assert(writer_files(w) =~= head);
    assert(pv.skip(0) =~= pv);
    assert(pv.take(0) =~= Seq::<PartView>::empty());
    assert(parts_entries(pv.take(0)) =~= Seq::<(Seq<char>, Seq<u8>)>::empty());
    assert(es =~= writer_files(w) + parts_entries(pv.skip(0)));
    let mut i: usize = 0;
    while i < parts.len()
        invariant
            i <= parts.len(),
            pv == part_views(parts@),
            pv == pkg@.parts,
            es == package_entries(pkg@),
            fits == package_fits(pkg@),
            writer_files(w) == head + parts_entries(pv.take(i as int)),
            es == writer_files(w) + parts_entries(pv.skip(i as int)),
        decreases parts.len() - i,
    {
        assert(pv.take(i as int + 1).drop_last() =~= pv.take(i as int));
        assert(pv[i as int] == parts@[i as int]@);
        let p = &parts[i];
        let ghost before = writer_files(w);
        let ghost own = part_entries(pv[i as int]);
        proof {
            lemma_entries_split(pv, i as int);
            assert(es =~= before + own + parts_entries(pv.skip(i as int + 1)));
            assert(es[before.len() as int] == own[0]);
            if fits {
                lemma_entry_writable(es, before.len() as int);
                assert(es.take(before.len() as int) =~= before);
            }
        }
        let m = member_name_of(p.partname.as_str());
        let mut w1 = write_entry(w, m.as_str(), p.blob.as_slice())?;
        if p.rels.len() > 0 {
            let rn = rels_partname_of(p.partname.as_str());
            let rm = member_name_of(rn.as_str());
            let rx = rels_xml_of(p.rels.as_vec());
            proof {
                assert(es[before.len() as int + 1] == own[1]);
                if fits {
                    lemma_entry_writable(es, before.len() as int + 1);
                    assert(es.take(before.len() as int + 1) =~= writer_files(w1));
                }
            }
            w1 = write_entry(w1, rm.as_str(), string_into_bytes(rx).as_slice())?;
        }
        w = w1;
        assert(writer_files(w) =~= before + part_entries(pv[i as int]));
        assert(es =~= writer_files(w) + parts_entries(pv.skip(i as int + 1)));
        i = i + 1;
    }
    assert(pv.take(i as int) =~= pv);
    proof {
        assert(pv.skip(i as int) =~= Seq::<PartView>::empty());
        assert(es =~= writer_files(w));
        if fits {
            assert forall|k: int| 0 <= k < writer_files(w).len() implies #[trigger] writer_files(w)[k].1.len() < entry_limit() by {
                assert(es[k] == writer_files(w)[k]);
                assert(es[k].1.len() < entry_limit());
            }
        }
    }
    match zip_finish(w) {
        Some(b) => Ok(b),
        None => Err(PptxError::Package("the zip archive could not be finished".to_owned())),
    }
}

} // verus!
