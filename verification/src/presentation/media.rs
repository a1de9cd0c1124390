//! Images added to a presentation's package.
use vstd::prelude::*;
use crate::error::PptxError;
use crate::id_list::occurs_at_exec;
use crate::media::{Image, bytes_eq, image_ext, sha1_digest, sha1_of};
use crate::opc::package::{Part, PartView, RelsView, next_partname_from};
use crate::opc::uri::base_uri_spec;
use crate::scan::occurs_at;
use crate::text::{str_to_chars, string_push_str};
use super::Presentation;

verus! {

/// `/ppt/media/`, the folder of media parts.
pub open spec fn media_dir() -> Seq<char> {
    "/ppt/media/"@
}

/// Whether part `p` is a media part whose bytes have the SHA-1 digest of `blob`.
pub open spec fn holds_media(p: PartView, blob: Seq<u8>) -> bool {
    occurs_at(p.partname, media_dir(), 0) && sha1_of(p.blob) == sha1_of(blob)
}

/// The first media part at or after `i` with the digest of `blob`.
pub open spec fn find_media(parts: Seq<PartView>, blob: Seq<u8>, i: int) -> Option<int>
    decreases parts.len() - i,
{
    if i < 0 || i >= parts.len() {
        None
    } else if holds_media(parts[i], blob) {
        Some(i)
    } else {
        find_media(parts, blob, i + 1)
    }
}

/// The name a new image part with content type `ct` gets: the first free
/// `/ppt/media/imageN.ext`.
pub open spec fn new_image_name(parts: Seq<PartView>, ct: Seq<char>) -> Seq<char> {
    next_partname_from(parts, "/ppt/media/image"@, "."@ + image_ext(ct), 1)
}

/// The part added for a new image named `name`.
pub open spec fn image_part(name: Seq<char>, blob: Seq<u8>, ct: Seq<char>) -> PartView {
    PartView { partname: name, content_type: ct, blob, rels: RelsView { rels: Seq::empty(), base: base_uri_spec(name) } }
}

/// The parts after adding an image with bytes `blob` and content type `ct`, and the name
/// returned: the first media part whose bytes have the same SHA-1 digest, the parts
/// unchanged; else a new part appended.
pub open spec fn image_added(parts: Seq<PartView>, blob: Seq<u8>, ct: Seq<char>) -> (Seq<PartView>, Seq<char>) {
    match find_media(parts, blob, 0) {
        Some(i) => (parts, parts[i].partname),
        None => {
            let name = new_image_name(parts, ct);
            (parts.push(image_part(name, blob, ct)), name)
        },
    }
}

/// A part `prefix N suffix` counted from `n` starts with `prefix`.
proof fn lemma_next_partname_prefix(parts: Seq<PartView>, prefix: Seq<char>, suffix: Seq<char>, n: nat)
    ensures
        occurs_at(next_partname_from(parts, prefix, suffix, n), prefix, 0),
    decreases parts.len() + 2 - n,
{
    let r = next_partname_from(parts, prefix, suffix, n);
    if n == 0 {
        lemma_next_partname_prefix(parts, prefix, suffix, 1);
    } else if n > parts.len() + 1 {
        assert(r.subrange(0, prefix.len() as int) =~= prefix);
    } else if !crate::opc::package::has_part(parts, prefix + crate::text::nat_digits(n) + suffix) {
        assert(r.subrange(0, prefix.len() as int) =~= prefix);
    } else {
        lemma_next_partname_prefix(parts, prefix, suffix, n + 1);
    }
}

/// The first media part holding `blob` at or after `i` is there and holds it.
proof fn lemma_find_media(parts: Seq<PartView>, blob: Seq<u8>, i: int)
    requires
        0 <= i,
    ensures
        find_media(parts, blob, i) matches Some(j) ==> i <= j < parts.len() && holds_media(parts[j], blob),
        find_media(parts, blob, i) is None ==> forall|k: int| i <= k < parts.len() ==> !holds_media(#[trigger] parts[k], blob),
    decreases parts.len() - i,
{
    if i < parts.len() && !holds_media(parts[i], blob) {
        lemma_find_media(parts, blob, i + 1);
    }
}

/// Adding an image a second time finds the part the first time added (or found): the
/// name is the same and nothing changes.
pub proof fn lemma_add_image_twice(parts: Seq<PartView>, blob: Seq<u8>, ct: Seq<char>)
    ensures
        image_added(image_added(parts, blob, ct).0, blob, ct) == image_added(parts, blob, ct),
{
    let (p1, s1) = image_added(parts, blob, ct);
    lemma_find_media(parts, blob, 0);
    match find_media(parts, blob, 0) {
        Some(i) => {},
        None => {
            let name = new_image_name(parts, ct);
            lemma_next_partname_prefix(parts, "/ppt/media/image"@, "."@ + image_ext(ct), 1);
            assert(occurs_at(name, media_dir(), 0)) by {
                reveal_strlit("/ppt/media/image");
                reveal_strlit("/ppt/media/");
                assert(name.subrange(0, 16) =~= "/ppt/media/image"@);
                assert(name.subrange(0, 11) =~= name.subrange(0, 16).subrange(0, 11));
                assert("/ppt/media/image"@.subrange(0, 11) =~= media_dir());
            }
            assert(holds_media(p1[parts.len() as int], blob));
            lemma_find_media(p1, blob, 0);
            assert forall|k: int| 0 <= k < parts.len() implies !holds_media(#[trigger] p1[k], blob) by {
                assert(p1[k] == parts[k]);
            }
            if find_media(p1, blob, 0) is None {
                assert(!holds_media(p1[parts.len() as int], blob));
            }
        },
    }
}

impl Presentation {
    /// The first media part with the digest of `blob` (see `find_media`).
    fn media_part_with(&self, blob: &[u8]) -> (r: Option<usize>)
        ensures
            r matches Some(i) ==> find_media(self@.parts, blob@, 0) == Some(i as int) && i < self@.parts.len(),
            r is None ==> find_media(self@.parts, blob@, 0) is None,
    {
        proof { self.lemma_view(); }
        let dir = str_to_chars("/ppt/media/");
        let digest = sha1_digest(blob);
        let mut i: usize = 0;
        while i < self.package.part_count()
            invariant
                i <= self@.parts.len(),
                self@ == self.package@,
                dir@ == media_dir(),
                digest@ == sha1_of(blob@),
                find_media(self@.parts, blob@, 0) == find_media(self@.parts, blob@, i as int),
            decreases self@.parts.len() - i,
        {
            let p = self.package.part_at(i);
            let name = str_to_chars(p.partname.as_str());
            if occurs_at_exec(&name, &dir, 0) {
                let d = sha1_digest(p.blob.as_slice());
                if bytes_eq(d.as_slice(), digest.as_slice()) {
                    return Some(i);
                }
            }
            i = i + 1;
        }
        None
    }

    /// Adds an image part and returns its name; an image whose SHA-1 digest a media part's
    /// bytes already have is not added again, and that part's name is returned.
    pub fn add_image(&mut self, image: &Image) -> (r: Result<String, PptxError>)
        requires
            old(self)@.parts.len() + 1 < usize::MAX,
        ensures
            r matches Ok(s) && s@ == image_added(old(self)@.parts, image@.blob, image@.content_type).1,
            final(self)@.parts == image_added(old(self)@.parts, image@.blob, image@.content_type).0,
            final(self)@.pkg_rels == old(self)@.pkg_rels,
    {
        proof { self.lemma_view(); }
        if let Some(i) = self.media_part_with(image.blob.as_slice()) {
            return Ok(self.package.part_at(i).partname.to_string());
        }
        let mut suffix = String::new();
        string_push_str(&mut suffix, ".");
        string_push_str(&mut suffix, image.ext());
        let name = self.package.next_partname("/ppt/media/image", suffix.as_str());
        let s = name.to_string();
        let part = Part::new(name, image.content_type.as_str(), image.blob.clone());
        proof { crate::opc::package::lemma_find_part_found(self@.parts, part@.partname, 0); }
        self.package.put_part(part);
        Ok(s)
    }
}

} // verus!
