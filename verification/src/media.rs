//! Media held in a presentation: images.
use vstd::prelude::*;
use crate::enums::str_eq;

verus! {

/// An image: its bytes and its content type (such as `image/png`).
#[derive(Debug, Clone, PartialEq, Eq)]
pub struct Image {
    /// The image file's bytes.
    pub blob: Vec<u8>,
    /// The content type.
    pub content_type: String,
}

/// What an image holds.
pub struct ImageView {
    pub blob: Seq<u8>,
    pub content_type: Seq<char>,
}

impl View for Image {
    type V = ImageView;

    open spec fn view(&self) -> ImageView {
        ImageView { blob: self.blob@, content_type: self.content_type@ }
    }
}

/// The file extension of an image part with content type `ct`; `bin` for a type this
/// library does not know.
pub open spec fn image_ext(ct: Seq<char>) -> Seq<char> {
    if ct == "image/png"@ { "png"@ }
    else if ct == "image/jpeg"@ { "jpg"@ }
    else if ct == "image/gif"@ { "gif"@ }
    else if ct == "image/bmp"@ { "bmp"@ }
    else if ct == "image/tiff"@ { "tiff"@ }
    else if ct == "image/x-emf"@ { "emf"@ }
    else if ct == "image/x-wmf"@ { "wmf"@ }
    else if ct == "image/svg+xml"@ { "svg"@ }
    else { "bin"@ }
}

impl Image {
    /// An image from its bytes and content type.
    pub fn from_bytes(blob: Vec<u8>, content_type: &str) -> (r: Image)
        ensures
            r@ == (ImageView { blob: blob@, content_type: content_type@ }),
    {
        Image { blob, content_type: content_type.to_owned() }
    }

    /// The SHA-1 digest of the image's bytes, by which images are told apart.
    pub fn sha1(&self) -> (r: Vec<u8>)
        ensures
            r@ == sha1_of(self.blob@),
            r@.len() == 20,
    {
        sha1_digest(self.blob.as_slice())
    }

    /// The file extension for this image's part (see `image_ext`).
    pub fn ext(&self) -> (r: &'static str)
        ensures
            r@ == image_ext(self.content_type@),
    {
        let ct = self.content_type.as_str();
        if str_eq(ct, "image/png") { "png" }
        else if str_eq(ct, "image/jpeg") { "jpg" }
        else if str_eq(ct, "image/gif") { "gif" }
        else if str_eq(ct, "image/bmp") { "bmp" }
        else if str_eq(ct, "image/tiff") { "tiff" }
        else if str_eq(ct, "image/x-emf") { "emf" }
        else if str_eq(ct, "image/x-wmf") { "wmf" }
        else if str_eq(ct, "image/svg+xml") { "svg" }
        else { "bin" }
    }
}

/// The SHA-1 digest of `data`.
pub uninterp spec fn sha1_of(data: Seq<u8>) -> Seq<u8>;

/// The SHA-1 digest of `data`, computed by the `sha1` crate's `Sha1::digest`; the contract
/// names the digest as a function of the bytes and gives its length, 20 bytes.
#[verifier::external_body]
pub(crate) fn sha1_digest(data: &[u8]) -> (r: Vec<u8>)
    ensures
        r@ == sha1_of(data@),
        r@.len() == 20,
{
    <sha1::Sha1 as sha1::Digest>::digest(data).to_vec()
}

/// Whether two byte strings are equal.
pub fn bytes_eq(a: &[u8], b: &[u8]) -> (r: bool)
    ensures
        r == (a@ == b@),
{
    if a.len() != b.len() {
        return false;
    }
    let mut i: usize = 0;
    while i < a.len()
        invariant
            i <= a.len(),
            a@.len() == b@.len(),
            a@.take(i as int) == b@.take(i as int),
        decreases a.len() - i,
    {
        if a[i] != b[i] {
            assert(a@[i as int] != b@[i as int]);
            return false;
        }
        assert(a@.take(i as int + 1) == a@.take(i as int).push(a@[i as int]));
        assert(b@.take(i as int + 1) == b@.take(i as int).push(b@[i as int]));
        i = i + 1;
    }
    assert(a@.take(i as int) == a@);
    assert(b@.take(i as int) == b@);
    true
}

} // verus!
