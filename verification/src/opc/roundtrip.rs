//! Saving and reopening: the archive a package is written to reads back as the package.
use vstd::prelude::*;
use vstd::utf8::encode_utf8;
use crate::opc::archive::{as_read, zip_listing};
use crate::opc::load::{
    LoadFail, TypesView, all_read, content_type_for, ends_with, find_entry, is_part_entry, override_for,
    package_from_bytes, parts_from, rels_for, rels_of_bytes, types_of_bytes,
};
use crate::opc::package::{PackageView, PartView, RelsView};
use crate::opc::serialize::{
    content_types_xml, file_name_spec, member_name, package_entries, package_rels_member, part_entries, parts_entries,
    rels_partname, rels_xml, types_member,
};
use crate::opc::uri::base_uri_spec;

verus! {

/// The zip entry name of the relationships part of part `n`.
pub open spec fn rels_member(n: Seq<char>) -> Seq<char> {
    member_name(rels_partname(n))
}

/// What one part needs to come back from its zip entry: a name `/` followed by a
/// non-empty part entry name, and relationships that resolve against its directory.
pub open spec fn part_archivable(p: PartView) -> bool {
    &&& p.partname.len() > 0
    &&& p.partname[0] == '/'
    &&& member_name(p.partname).len() > 0
    &&& is_part_entry(member_name(p.partname))
    &&& p.rels.base == base_uri_spec(p.partname)
}

/// What a package needs to come back from its archive: package relationships that
/// resolve against `/`, parts that each can (see `part_archivable`), and no two parts with
/// one name or one relationships entry name.
pub open spec fn archivable(pkg: PackageView) -> bool {
    &&& pkg.pkg_rels.base == seq!['/']
    &&& forall|i: int| 0 <= i < pkg.parts.len() ==> #[trigger] part_archivable(pkg.parts[i])
    &&& forall|i: int, j: int| 0 <= i < j < pkg.parts.len() ==> #[trigger] pkg.parts[i].partname != #[trigger] pkg.parts[j].partname
    &&& forall|i: int, j: int| 0 <= i < j < pkg.parts.len() ==> rels_member(#[trigger] pkg.parts[i].partname) != rels_member(#[trigger] pkg.parts[j].partname)
}

/// The overrides `[Content_Types].xml` lists for the parts: name and content type of each.
pub open spec fn part_overrides(parts: Seq<PartView>) -> Seq<(Seq<char>, Seq<char>)> {
    parts.map_values(|p: PartView| (p.partname, p.content_type))
}

/// That the XML reader reads the written content types and relationships back: the
/// overrides of `[Content_Types].xml`, the package relationships and those of each part
/// that has some.
pub open spec fn reads_back(pkg: PackageView) -> bool {
    &&& types_of_bytes(encode_utf8(content_types_xml(pkg.parts))) matches Ok(t) && t.overrides == part_overrides(pkg.parts)
    &&& rels_of_bytes(encode_utf8(rels_xml(pkg.pkg_rels.rels))) == Ok::<Seq<crate::opc::package::RelView>, LoadFail>(pkg.pkg_rels.rels)
    &&& forall|i: int| 0 <= i < pkg.parts.len() && #[trigger] pkg.parts[i].rels.rels.len() > 0 ==> rels_of_bytes(
        encode_utf8(rels_xml(pkg.parts[i].rels.rels)),
    ) == Ok::<Seq<crate::opc::package::RelView>, LoadFail>(pkg.parts[i].rels.rels)
}

proof fn lemma_all_read(es: Seq<(Seq<char>, Seq<u8>)>)
    ensures
        all_read(as_read(es)) == Some(es),
    decreases es.len(),
{
    if es.len() > 0 {
        assert(as_read(es).drop_last() =~= as_read(es.drop_last()));
        lemma_all_read(es.drop_last());
        assert(es.drop_last().push(es.last()) =~= es);
    } else {
        assert(as_read(es) =~= Seq::<(Seq<char>, Option<Seq<u8>>)>::empty());
    }
}

proof fn lemma_find_entry_at(es: Seq<(Seq<char>, Seq<u8>)>, name: Seq<char>, i: int, q: int)
    requires
        0 <= i <= q < es.len(),
        es[q].0 == name,
        forall|j: int| i <= j < q ==> #[trigger] es[j].0 != name,
    ensures
        find_entry(es, name, i) == Some(es[q].1),
    decreases q - i,
{
    if i < q {
        lemma_find_entry_at(es, name, i + 1, q);
    }
}

proof fn lemma_find_entry_none(es: Seq<(Seq<char>, Seq<u8>)>, name: Seq<char>, i: int)
    requires
        0 <= i,
        forall|j: int| i <= j < es.len() ==> #[trigger] es[j].0 != name,
    ensures
        find_entry(es, name, i) is None,
    decreases es.len() - i,
{
    if i < es.len() {
        lemma_find_entry_none(es, name, i + 1);
    }
}

/// The entries of the first `k` parts are a prefix of those of all parts.
pub proof fn lemma_parts_entries_prefix(parts: Seq<PartView>, k: int)
    requires
        0 <= k <= parts.len(),
    ensures
        parts_entries(parts) == parts_entries(parts.take(k)) + parts_entries(parts.skip(k)),
    decreases parts.len() - k,
{
    if k == parts.len() {
        assert(parts.take(k) =~= parts);
        assert(parts.skip(k) =~= Seq::<PartView>::empty());
        assert(parts_entries(parts) + Seq::<(Seq<char>, Seq<u8>)>::empty() =~= parts_entries(parts));
    } else {
        lemma_parts_entries_prefix(parts, k + 1);
        assert(parts.take(k + 1).drop_last() =~= parts.take(k));
        assert(parts.take(k + 1).last() == parts[k]);
        lemma_parts_entries_first(parts.skip(k));
        assert(parts.skip(k).drop_first() =~= parts.skip(k + 1));
        assert(parts.skip(k)[0] == parts[k]);
        assert(parts_entries(parts.take(k + 1)) + parts_entries(parts.skip(k + 1)) =~= parts_entries(parts.take(k))
            + parts_entries(parts.skip(k)));
    }
}

/// The entries of parts: those of the first, then those of the rest.
pub proof fn lemma_parts_entries_first(parts: Seq<PartView>)
    requires
        parts.len() > 0,
    ensures
        parts_entries(parts) == part_entries(parts[0]) + parts_entries(parts.drop_first()),
    decreases parts.len(),
{
    if parts.len() == 1 {
        assert(parts.drop_last() =~= Seq::<PartView>::empty());
        assert(parts.drop_first() =~= Seq::<PartView>::empty());
        assert(part_entries(parts[0]) + Seq::<(Seq<char>, Seq<u8>)>::empty() =~= part_entries(parts[0]));
    } else {
        lemma_parts_entries_first(parts.drop_last());
        assert(parts.drop_last()[0] == parts[0]);
        assert(parts.drop_last().drop_first() =~= parts.drop_first().drop_last());
        assert(parts.drop_first().last() == parts.last());
        assert(part_entries(parts[0]) + parts_entries(parts.drop_first()) =~= part_entries(parts[0])
            + parts_entries(parts.drop_last().drop_first()) + part_entries(parts.last()));
    }
}

/// A relationships entry name ends with `.rels` and is longer than `_rels/.rels`.
proof fn lemma_rels_member(n: Seq<char>)
    requires
        n.len() > 0,
        n.last() != '/',
    ensures
        ends_with(rels_member(n), ".rels"@),
        rels_member(n).len() > 11,
{
    reveal_strlit(".rels");
    reveal_strlit("_rels/");
    let dir = base_uri_spec(n);
    let pre = if dir == seq!['/'] { dir } else { dir.push('/') };
    let f = file_name_spec(n);
    assert(f.len() >= 1);
    let r = rels_partname(n);
    assert(r == pre + "_rels/"@ + f + ".rels"@);
    assert(pre.len() >= 1);
    assert(r.len() >= 13);
    let m = rels_member(n);
    assert(m.len() >= 12);
    assert(m.subrange(m.len() - 5, m.len() as int) =~= ".rels"@) by {
        assert(r.subrange(r.len() - 5, r.len() as int) =~= ".rels"@);
        if r.len() > 0 && r[0] == '/' {
            assert(m == r.drop_first());
            assert(m.subrange(m.len() - 5, m.len() as int) =~= r.subrange(r.len() - 5, r.len() as int));
        }
    }
}

/// The last character of an archivable part's name is not `/`.
proof fn lemma_name_last(p: PartView)
    requires
        part_archivable(p),
    ensures
        p.partname.last() != '/',
        seq!['/'] + member_name(p.partname) == p.partname,
{
    reveal_strlit("/");
    let m = member_name(p.partname);
    assert(m == p.partname.drop_first());
    assert(seq!['/'] + m =~= p.partname);
    if p.partname.last() == '/' {
        assert(m.last() == '/');
        assert(m.subrange(m.len() - 1, m.len() as int) =~= "/"@);
        assert(ends_with(m, "/"@));
    }
}

/// The first override for an archivable part's name is its content type.
proof fn lemma_override(pkg: PackageView, k: int, i: int)
    requires
        archivable(pkg),
        0 <= i <= k < pkg.parts.len(),
    ensures
        override_for(part_overrides(pkg.parts), pkg.parts[k].partname, i) == Some(pkg.parts[k].content_type),
    decreases k - i,
{
    let ov = part_overrides(pkg.parts);
    assert(ov[i] == (pkg.parts[i].partname, pkg.parts[i].content_type));
    if i < k {
        assert(pkg.parts[i].partname != pkg.parts[k].partname);
        lemma_override(pkg, k, i + 1);
    }
}

/// No entry of the parts has relationships entry name `rn` unless a part with
/// relationships has it.
proof fn lemma_no_entry(ps: Seq<PartView>, rn: Seq<char>)
    requires
        ends_with(rn, ".rels"@),
        forall|i: int| 0 <= i < ps.len() ==> #[trigger] part_archivable(ps[i]),
        forall|i: int| 0 <= i < ps.len() && #[trigger] ps[i].rels.rels.len() > 0 ==> rels_member(ps[i].partname) != rn,
    ensures
        forall|j: int| 0 <= j < parts_entries(ps).len() ==> #[trigger] parts_entries(ps)[j].0 != rn,
    decreases ps.len(),
{
    if ps.len() > 0 {
        let l = ps.last();
        assert(part_archivable(ps[ps.len() - 1]));
        assert(ps.drop_last().len() == ps.len() - 1);
        assert forall|i: int| 0 <= i < ps.drop_last().len() implies #[trigger] part_archivable(ps.drop_last()[i]) by {
            assert(ps.drop_last()[i] == ps[i]);
            assert(part_archivable(ps[i]));
        }
        assert forall|i: int| 0 <= i < ps.drop_last().len() && #[trigger] ps.drop_last()[i].rels.rels.len() > 0 implies rels_member(ps.drop_last()[i].partname) != rn by {
            assert(ps.drop_last()[i] == ps[i]);
        }
        lemma_no_entry(ps.drop_last(), rn);
        let pe = parts_entries(ps);
        let prev = parts_entries(ps.drop_last());
        let own = part_entries(l);
        assert(pe == prev + own);
        assert forall|j: int| 0 <= j < pe.len() implies #[trigger] pe[j].0 != rn by {
            if j < prev.len() {
                assert(pe[j] == prev[j]);
            } else {
                let q = j - prev.len();
                assert(pe[j] == own[q]);
                if q == 0 {
                    assert(own[0].0 == member_name(l.partname));
                    assert(!ends_with(member_name(l.partname), ".rels"@));
                } else {
                    assert(l.rels.rels.len() > 0);
                }
            }
        }
    }
}

/// The entries of a package that are not parts' own: `[Content_Types].xml` and the
/// package relationships; neither has a part's relationships entry name.
proof fn lemma_head_names(n: Seq<char>)
    requires
        n.len() > 0,
        n.last() != '/',
    ensures
        types_member() != rels_member(n),
        package_rels_member() != rels_member(n),
        !is_part_entry(types_member()),
        !is_part_entry(package_rels_member()),
{
    lemma_rels_member(n);
    reveal_strlit("[Content_Types].xml");
    reveal_strlit("_rels/.rels");
    reveal_strlit(".rels");
    let tm = types_member();
    assert(!ends_with(tm, ".rels"@)) by {
        assert(tm.subrange(tm.len() - 5, tm.len() as int) != ".rels"@) by {
            assert(tm.subrange(tm.len() - 5, tm.len() as int)[0] == ']');
        }
    }
    assert(package_rels_member().len() == 11);
    let pm = package_rels_member();
    assert(pm.subrange(pm.len() - 5, pm.len() as int) =~= ".rels"@);
}

/// The position of the first entry of part `k` in the archive of a package.
pub open spec fn entry_pos(parts: Seq<PartView>, k: int) -> int {
    2 + parts_entries(parts.take(k)).len() as int
}

/// The entries of part `k` stand at `entry_pos(k)`.
proof fn lemma_entries_at(pkg: PackageView, k: int)
    requires
        0 <= k < pkg.parts.len(),
    ensures
        ({
            let es = package_entries(pkg);
            let p = entry_pos(pkg.parts, k);
            let own = part_entries(pkg.parts[k]);
            &&& p + own.len() <= es.len()
            &&& forall|q: int| 0 <= q < own.len() ==> es[p + q] == #[trigger] own[q]
            &&& entry_pos(pkg.parts, k + 1) == p + own.len()
        }),
{
    let parts = pkg.parts;
    lemma_parts_entries_prefix(parts, k);
    lemma_parts_entries_first(parts.skip(k));
    assert(parts.skip(k)[0] == parts[k]);
    assert(parts.take(k + 1).drop_last() =~= parts.take(k));
    assert(parts.take(k + 1).last() == parts[k]);
    let es = package_entries(pkg);
    let head = seq![
        (types_member(), encode_utf8(content_types_xml(pkg.parts))),
        (package_rels_member(), encode_utf8(rels_xml(pkg.pkg_rels.rels))),
    ];
    let own = part_entries(parts[k]);
    let a = parts_entries(parts.take(k));
    let rest = parts_entries(parts.skip(k).drop_first());
    assert(es =~= head + (a + (own + rest)));
    assert forall|q: int| 0 <= q < own.len() implies es[entry_pos(parts, k) + q] == #[trigger] own[q] by {
        assert(es[2 + a.len() + q] == (a + (own + rest))[a.len() + q]);
    }
}

/// The relationships the archive gives part `k` are its own.
proof fn lemma_rels_back(pkg: PackageView, k: int)
    requires
        archivable(pkg),
        reads_back(pkg),
        0 <= k < pkg.parts.len(),
    ensures
        rels_for(package_entries(pkg), pkg.parts[k].partname) == Ok::<Seq<crate::opc::package::RelView>, LoadFail>(pkg.parts[k].rels.rels),
{
    let parts = pkg.parts;
    let es = package_entries(pkg);
    let p = parts[k];
    assert(part_archivable(p));
    lemma_name_last(p);
    lemma_entries_at(pkg, k);
    let i = entry_pos(parts, k);
    let own = part_entries(p);
    let rn = rels_member(p.partname);
    lemma_rels_member(p.partname);
    lemma_head_names(p.partname);
    if p.rels.rels.len() > 0 {
        let pre = parts.take(k);
        assert forall|m: int| 0 <= m < pre.len() implies #[trigger] part_archivable(pre[m]) by {
            assert(pre[m] == parts[m]);
            assert(part_archivable(parts[m]));
        }
        assert forall|m: int| 0 <= m < pre.len() && #[trigger] pre[m].rels.rels.len() > 0 implies rels_member(pre[m].partname) != rn by {
            assert(pre[m] == parts[m]);
            assert(rels_member(parts[m].partname) != rels_member(parts[k].partname));
        }
        lemma_no_entry(pre, rn);
        lemma_parts_entries_prefix(parts, k);
        assert forall|j: int| 0 <= j < i + 1 implies #[trigger] es[j].0 != rn by {
            if j >= 2 && j < i {
                assert(es[j] == parts_entries(pre)[j - 2]);
            } else if j == i {
                assert(es[i] == own[0]);
                assert(!ends_with(member_name(p.partname), ".rels"@));
            }
        }
        assert(es[i + 1] == own[1]);
        lemma_find_entry_at(es, rn, 0, i + 1);
    } else {
        assert forall|m: int| 0 <= m < parts.len() && #[trigger] parts[m].rels.rels.len() > 0 implies rels_member(parts[m].partname) != rn by {
            if m < k {
                assert(rels_member(parts[m].partname) != rels_member(parts[k].partname));
            } else if m > k {
                assert(rels_member(parts[k].partname) != rels_member(parts[m].partname));
            }
        }
        lemma_no_entry(parts, rn);
        assert forall|j: int| 0 <= j < es.len() implies #[trigger] es[j].0 != rn by {
            if j >= 2 {
                assert(es[j] == parts_entries(parts)[j - 2]);
            }
        }
        lemma_find_entry_none(es, rn, 0);
        assert(p.rels.rels =~= Seq::<crate::opc::package::RelView>::empty());
    }
}

/// Reading a part entry adds its part, given its content type and relationships.
proof fn lemma_read_part_entry(es: Seq<(Seq<char>, Seq<u8>)>, t: TypesView, i: int, acc: Seq<PartView>, p: PartView)
    requires
        0 <= i < es.len(),
        es[i] == (member_name(p.partname), p.blob),
        is_part_entry(member_name(p.partname)),
        seq!['/'] + member_name(p.partname) == p.partname,
        content_type_for(t, p.partname) == Some(p.content_type),
        rels_for(es, p.partname) == Ok::<Seq<crate::opc::package::RelView>, LoadFail>(p.rels.rels),
        p.rels.base == base_uri_spec(p.partname),
    ensures
        parts_from(es, t, i, acc) == parts_from(es, t, i + 1, acc.push(p)),
{
    let back = PartView {
        partname: p.partname,
        content_type: p.content_type,
        blob: p.blob,
        rels: RelsView { rels: p.rels.rels, base: base_uri_spec(p.partname) },
    };
    assert(back == p);
}

/// Reading an entry that is not a part adds nothing.
proof fn lemma_skip_entry(es: Seq<(Seq<char>, Seq<u8>)>, t: TypesView, i: int, acc: Seq<PartView>)
    requires
        0 <= i < es.len(),
        !is_part_entry(es[i].0),
    ensures
        parts_from(es, t, i, acc) == parts_from(es, t, i + 1, acc),
{
}

/// Reading the entries of part `k` adds the part and moves on to the next part's entries.
#[verifier::spinoff_prover]
proof fn lemma_part_step(pkg: PackageView, t: TypesView, k: int, acc: Seq<PartView>)
    requires
        archivable(pkg),
        reads_back(pkg),
        t.overrides == part_overrides(pkg.parts),
        0 <= k < pkg.parts.len(),
    ensures
        parts_from(package_entries(pkg), t, entry_pos(pkg.parts, k), acc)
            == parts_from(package_entries(pkg), t, entry_pos(pkg.parts, k + 1), acc.push(pkg.parts[k])),
{
    let parts = pkg.parts;
    let es = package_entries(pkg);
    let p = parts[k];
    assert(part_archivable(p));
    lemma_name_last(p);
    lemma_entries_at(pkg, k);
    let i = entry_pos(parts, k);
    let own = part_entries(p);
    assert(es[i] == own[0]);
    lemma_override(pkg, k, 0);
    lemma_rels_back(pkg, k);
    lemma_read_part_entry(es, t, i, acc, p);
    if p.rels.rels.len() > 0 {
        lemma_rels_member(p.partname);
        assert(es[i + 1] == own[1]);
        assert(!is_part_entry(es[i + 1].0));
        lemma_skip_entry(es, t, i + 1, acc.push(p));
    }
}

/// From the entries of part `k` on, the parts read back are the package's.
proof fn lemma_parts_back(pkg: PackageView, t: TypesView, k: int)
    requires
        archivable(pkg),
        reads_back(pkg),
        t.overrides == part_overrides(pkg.parts),
        0 <= k <= pkg.parts.len(),
    ensures
        parts_from(package_entries(pkg), t, entry_pos(pkg.parts, k), pkg.parts.take(k)) == Ok::<Seq<PartView>, LoadFail>(pkg.parts),
    decreases pkg.parts.len() - k,
{
    let parts = pkg.parts;
    if k == parts.len() {
        lemma_parts_entries_prefix(parts, k);
        assert(parts.skip(k) =~= Seq::<PartView>::empty());
        assert(parts.take(k) =~= parts);
    } else {
        lemma_part_step(pkg, t, k, parts.take(k));
        assert(parts.take(k).push(parts[k]) =~= parts.take(k + 1));
        lemma_parts_back(pkg, t, k + 1);
    }
}

/// Saving and reopening: the archive whose entries are those `to_bytes` writes opens
/// (`from_bytes`) as the same package, for an archivable package whose written content
/// types and relationships the XML reader reads back.
pub proof fn lemma_save_reopen(pkg: PackageView, b: Seq<u8>)
    requires
        archivable(pkg),
        reads_back(pkg),
        zip_listing(b) == Some(as_read(package_entries(pkg))),
    ensures
        package_from_bytes(b) == Ok::<PackageView, LoadFail>(pkg),
{
    let es = package_entries(pkg);
    lemma_all_read(es);
    let t = types_of_bytes(encode_utf8(content_types_xml(pkg.parts)))->Ok_0;
    lemma_find_entry_at(es, types_member(), 0, 0);
    reveal_strlit("[Content_Types].xml");
    reveal_strlit("_rels/.rels");
    assert(es[0].0 != package_rels_member());
    lemma_find_entry_at(es, package_rels_member(), 0, 1);
    lemma_parts_back(pkg, t, 0);
    assert(pkg.parts.take(0) =~= Seq::<PartView>::empty());
    assert(parts_entries(pkg.parts.take(0)) =~= Seq::<(Seq<char>, Seq<u8>)>::empty());
    assert(!is_part_entry(es[0].0)) by {
        assert(es[0].0 == types_member());
    }
    assert(!is_part_entry(es[1].0)) by {
        reveal_strlit(".rels");
        let pm = package_rels_member();
        assert(pm.subrange(pm.len() - 5, pm.len() as int) =~= ".rels"@);
    }
    lemma_skip_entry(es, t, 0, Seq::empty());
    lemma_skip_entry(es, t, 1, Seq::empty());
    assert(entry_pos(pkg.parts, 0) == 2);
    assert(parts_from(es, t, 0, Seq::empty()) == Ok::<Seq<PartView>, LoadFail>(pkg.parts));
    assert(pkg.pkg_rels == RelsView { rels: pkg.pkg_rels.rels, base: seq!['/'] });
}

/// No entry of the parts has name `mn`, a part entry name that no part's own entry has.
proof fn lemma_no_member_entry(ps: Seq<PartView>, mn: Seq<char>)
    requires
        is_part_entry(mn),
        forall|i: int| 0 <= i < ps.len() ==> #[trigger] part_archivable(ps[i]),
        forall|i: int| 0 <= i < ps.len() ==> member_name(#[trigger] ps[i].partname) != mn,
    ensures
        forall|j: int| 0 <= j < parts_entries(ps).len() ==> #[trigger] parts_entries(ps)[j].0 != mn,
    decreases ps.len(),
{
    if ps.len() > 0 {
        let l = ps.last();
        assert(part_archivable(ps[ps.len() - 1]));
        assert forall|i: int| 0 <= i < ps.drop_last().len() implies #[trigger] part_archivable(ps.drop_last()[i]) by {
            assert(ps.drop_last()[i] == ps[i]);
            assert(part_archivable(ps[i]));
        }
        assert forall|i: int| 0 <= i < ps.drop_last().len() implies member_name(#[trigger] ps.drop_last()[i].partname) != mn by {
            assert(ps.drop_last()[i] == ps[i]);
        }
        lemma_no_member_entry(ps.drop_last(), mn);
        lemma_name_last(l);
        lemma_rels_member(l.partname);
        let pe = parts_entries(ps);
        let prev = parts_entries(ps.drop_last());
        let own = part_entries(l);
        assert(pe == prev + own);
        assert forall|j: int| 0 <= j < pe.len() implies #[trigger] pe[j].0 != mn by {
            if j < prev.len() {
                assert(pe[j] == prev[j]);
            } else {
                assert(pe[j] == own[j - prev.len()]);
                assert(member_name(ps[ps.len() - 1].partname) != mn);
            }
        }
    }
}

/// Two part names that start with `/` and have the same entry name are the same.
proof fn lemma_member_injective(a: PartView, b: PartView)
    requires
        part_archivable(a),
        part_archivable(b),
        member_name(a.partname) == member_name(b.partname),
    ensures
        a.partname == b.partname,
{
    lemma_name_last(a);
    lemma_name_last(b);
}

/// The entries of the parts of an archivable list of parts have distinct names, none of
/// them `[Content_Types].xml` or `_rels/.rels`.
proof fn lemma_parts_entries_distinct(ps: Seq<PartView>)
    requires
        forall|i: int| 0 <= i < ps.len() ==> #[trigger] part_archivable(ps[i]),
        forall|i: int, j: int| 0 <= i < j < ps.len() ==> #[trigger] ps[i].partname != #[trigger] ps[j].partname,
        forall|i: int, j: int| 0 <= i < j < ps.len() ==> rels_member(#[trigger] ps[i].partname) != rels_member(#[trigger] ps[j].partname),
    ensures
        crate::opc::serialize::entries_distinct(parts_entries(ps)),
        forall|j: int| 0 <= j < parts_entries(ps).len() ==> #[trigger] parts_entries(ps)[j].0 != types_member()
            && parts_entries(ps)[j].0 != package_rels_member(),
    decreases ps.len(),
{
    if ps.len() > 0 {
        let pre = ps.drop_last();
        let l = ps.last();
        let n = ps.len() - 1;
        assert(l == ps[n]);
        assert(part_archivable(ps[n]));
        assert forall|i: int| 0 <= i < pre.len() implies #[trigger] part_archivable(pre[i]) by {
            assert(pre[i] == ps[i]);
            assert(part_archivable(ps[i]));
        }
        assert forall|i: int, j: int| 0 <= i < j < pre.len() implies #[trigger] pre[i].partname != #[trigger] pre[j].partname by {
            assert(pre[i] == ps[i]);
            assert(pre[j] == ps[j]);
        }
        assert forall|i: int, j: int| 0 <= i < j < pre.len() implies rels_member(#[trigger] pre[i].partname) != rels_member(#[trigger] pre[j].partname) by {
            assert(pre[i] == ps[i]);
            assert(pre[j] == ps[j]);
        }
        lemma_parts_entries_distinct(pre);
        lemma_name_last(l);
        lemma_rels_member(l.partname);
        lemma_head_names(l.partname);
        // the part's own entry name is new
        assert forall|i: int| 0 <= i < pre.len() implies member_name(#[trigger] pre[i].partname) != member_name(l.partname) by {
            assert(pre[i] == ps[i]);
            assert(ps[i].partname != ps[n].partname);
            if member_name(ps[i].partname) == member_name(ps[n].partname) {
                lemma_member_injective(ps[i], ps[n]);
            }
        }
        lemma_no_member_entry(pre, member_name(l.partname));
        // the part's relationships entry name is new
        let rn = rels_member(l.partname);
        assert forall|i: int| 0 <= i < pre.len() && #[trigger] pre[i].rels.rels.len() > 0 implies rels_member(pre[i].partname) != rn by {
            assert(pre[i] == ps[i]);
        }
        lemma_no_entry(pre, rn);
        let pe = parts_entries(ps);
        let prev = parts_entries(pre);
        let own = part_entries(l);
        assert(pe == prev + own);
        assert(own[0].0 == member_name(l.partname));
        assert(!ends_with(member_name(l.partname), ".rels"@));
        assert(!is_part_entry(types_member()) && !is_part_entry(package_rels_member()));
        assert forall|j: int| 0 <= j < pe.len() implies #[trigger] pe[j].0 != types_member() && pe[j].0 != package_rels_member() by {
            if j < prev.len() {
                assert(pe[j] == prev[j]);
            } else {
                assert(pe[j] == own[j - prev.len()]);
            }
        }
        assert forall|i: int, j: int| 0 <= i < j < pe.len() implies #[trigger] pe[i].0 != #[trigger] pe[j].0 by {
            if j < prev.len() {
                assert(pe[i] == prev[i]);
                assert(pe[j] == prev[j]);
            } else if i < prev.len() {
                assert(pe[i] == prev[i]);
                assert(pe[j] == own[j - prev.len()]);
            } else {
                assert(pe[i] == own[0]);
                assert(pe[j] == own[1]);
            }
        }
    }
}

/// The entries of the archive of an archivable package have distinct names.
pub proof fn lemma_archivable_distinct(pkg: PackageView)
    requires
        archivable(pkg),
    ensures
        crate::opc::serialize::entries_distinct(package_entries(pkg)),
{
    lemma_parts_entries_distinct(pkg.parts);
    reveal_strlit("[Content_Types].xml");
    reveal_strlit("_rels/.rels");
    let es = package_entries(pkg);
    let pe = parts_entries(pkg.parts);
    assert(types_member().len() == 19 && package_rels_member().len() == 11);
    assert(types_member() != package_rels_member());
    assert forall|i: int, j: int| 0 <= i < j < es.len() implies #[trigger] es[i].0 != #[trigger] es[j].0 by {
        if i >= 2 {
            assert(es[i] == pe[i - 2]);
            assert(es[j] == pe[j - 2]);
        } else if j >= 2 {
            assert(es[j] == pe[j - 2]);
        }
    }
}

} // verus!
