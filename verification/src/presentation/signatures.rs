//! Reading the digital signature parts back: the metadata that each signature's XML holds.
use vstd::prelude::*;
use crate::error::PptxError;
use crate::opc::package::{PackageView, RelView, of_type, find_part, lemma_find_part_found};
use crate::opc::uri::resolve;
use crate::scan::find_from;
use crate::signature::{DigitalSignature, HashAlgorithm, SignatureCommitment, SignerInfo, DIGITAL_SIGNATURE_RT};
use crate::text::{lossy_utf8, str_to_chars, string_from_utf8_lossy};
use crate::xml::{
    EventView, XmlEvent, attributes_of, attrs_view, bytes_are, bytes_equal_str, is_final, local_name,
    local_name_spec, next_event, reader_events, tag_attrs, tag_local, tag_local_name, xml_events, xml_reader,
};
use super::Presentation;
use super::extras::origin_name;

verus! {

/// The element whose text is being read.
#[derive(Clone, Copy, PartialEq, Eq, Structural)]
pub enum SigField {
    Name,
    Email,
    Title,
    Time,
    Commitment,
}

/// What has been read of a signature so far.
pub struct SigRead {
    pub name: Seq<char>,
    pub email: Option<Seq<char>>,
    pub title: Option<Seq<char>>,
    pub time: Option<Seq<char>>,
    pub alg: HashAlgorithm,
    pub commit: SignatureCommitment,
    pub current: Option<SigField>,
}

/// Why reading stopped: text or bytes that are not valid (`PptxError::InvalidXml`), or
/// XML that the reader refused (`PptxError::Xml`).
pub enum ReadFail {
    Invalid,
    Reader,
}

/// The state before the first event: an empty name, SHA-1, "created".
pub open spec fn sig_start() -> SigRead {
    SigRead {
        name: Seq::empty(),
        email: None,
        title: None,
        time: None,
        alg: HashAlgorithm::Sha1,
        commit: SignatureCommitment::Created,
        current: None,
    }
}

/// The hash algorithm that an `Algorithm` attribute value names: SHA-256 when it mentions
/// `sha256`, else SHA-512 when it mentions `sha512`, else SHA-1.
pub open spec fn alg_of(v: Seq<char>) -> HashAlgorithm {
    if find_from(v, "sha256"@, 0) is Some {
        HashAlgorithm::Sha256
    } else if find_from(v, "sha512"@, 0) is Some {
        HashAlgorithm::Sha512
    } else {
        HashAlgorithm::Sha1
    }
}

/// The algorithm after the attributes: the last one whose local name is `Algorithm`
/// decides; attributes that the reader refused are passed over.
pub open spec fn alg_after(attrs: Seq<Option<(Seq<u8>, Seq<u8>)>>, alg: HashAlgorithm) -> HashAlgorithm
    decreases attrs.len(),
{
    if attrs.len() == 0 {
        alg
    } else {
        let a = alg_after(attrs.drop_last(), alg);
        match attrs.last() {
            Some((k, v)) => if bytes_are(local_name_spec(k), "Algorithm"@) { alg_of(lossy_utf8(v)) } else { a },
            None => a,
        }
    }
}

/// The algorithm after a `SignatureMethod` tag; a tag whose content is not UTF-8 counts as
/// having no attributes.
pub open spec fn method_alg(c: Seq<u8>, n: usize, alg: HashAlgorithm) -> HashAlgorithm {
    match tag_attrs(c, n) {
        Some(l) => alg_after(l, alg),
        None => alg,
    }
}

/// The commitment that a `CommitmentTypeId` text names.
pub open spec fn commitment_of(t: Seq<char>) -> SignatureCommitment {
    if t.len() >= 9 && t.subrange(t.len() - 9, t.len() as int) == "/approved"@ {
        SignatureCommitment::Approved
    } else if t.len() >= 9 && t.subrange(t.len() - 9, t.len() as int) == "/reviewed"@ {
        SignatureCommitment::Reviewed
    } else {
        SignatureCommitment::Created
    }
}

/// The element that a start tag's local name opens for reading, if any.
pub open spec fn field_of(ln: Seq<u8>) -> Option<SigField> {
    if bytes_are(ln, "SignerName"@) {
        Some(SigField::Name)
    } else if bytes_are(ln, "SignerEmail"@) {
        Some(SigField::Email)
    } else if bytes_are(ln, "SignerTitle"@) {
        Some(SigField::Title)
    } else if bytes_are(ln, "Value"@) {
        Some(SigField::Time)
    } else if bytes_are(ln, "CommitmentTypeId"@) {
        Some(SigField::Commitment)
    } else {
        None
    }
}

/// The state after text `t` was read for element `f`.
pub open spec fn with_text(st: SigRead, f: SigField, t: Seq<char>) -> SigRead {
    match f {
        SigField::Name => SigRead { name: t, ..st },
        SigField::Email => SigRead { email: Some(t), ..st },
        SigField::Title => SigRead { title: Some(t), ..st },
        SigField::Time => SigRead { time: Some(t), ..st },
        SigField::Commitment => SigRead { commit: commitment_of(t), ..st },
    }
}

/// One event that is not the end of input or an error: a `SignatureMethod` tag sets the
/// algorithm, a start tag of one of the five elements opens it, text is stored for the
/// open element (an error when it could not be decoded), any end tag closes it.
pub open spec fn sig_step(st: SigRead, e: EventView) -> Result<SigRead, ReadFail> {
    match e {
        EventView::Start(c, n) => {
            let ln = tag_local_name(c, n);
            if bytes_are(ln, "SignatureMethod"@) {
                Ok(SigRead { alg: method_alg(c, n, st.alg), ..st })
            } else {
                match field_of(ln) {
                    Some(f) => Ok(SigRead { current: Some(f), ..st }),
                    None => Ok(st),
                }
            }
        },
        EventView::Empty(c, n) => {
            if bytes_are(tag_local_name(c, n), "SignatureMethod"@) {
                Ok(SigRead { alg: method_alg(c, n, st.alg), ..st })
            } else {
                Ok(st)
            }
        },
        EventView::Text(t) => match st.current {
            Some(f) => match t {
                Some(text) => Ok(with_text(st, f, text)),
                None => Err(ReadFail::Invalid),
            },
            None => Ok(st),
        },
        EventView::End(_) => Ok(SigRead { current: None, ..st }),
        _ => Ok(st),
    }
}

/// The state after the events from position `i` on: the end of input stops reading, an
/// error or a failed step fails it.
pub open spec fn sig_from(ev: Seq<EventView>, i: int, st: SigRead) -> Result<SigRead, ReadFail>
    decreases ev.len() - i,
{
    if i < 0 || i >= ev.len() {
        Ok(st)
    } else {
        match ev[i] {
            EventView::Eof => Ok(st),
            EventView::Error => Err(ReadFail::Reader),
            e => match sig_step(st, e) {
                Ok(s2) => sig_from(ev, i + 1, s2),
                Err(f) => Err(f),
            },
        }
    }
}

/// What a signature part holds: the fold of `sig_step` over its XML events; an error when
/// the bytes are not UTF-8.
pub open spec fn signature_read(data: Seq<u8>) -> Result<SigRead, ReadFail> {
    if vstd::utf8::valid_utf8(data) {
        sig_from(xml_events(data), 0, sig_start())
    } else {
        Err(ReadFail::Invalid)
    }
}

/// The characters of an optional string.
pub open spec fn opt_chars(s: Option<String>) -> Option<Seq<char>> {
    match s {
        Some(x) => Some(x@),
        None => None,
    }
}

/// Whether a signature holds what was read.
pub open spec fn sig_is(s: DigitalSignature, r: SigRead) -> bool {
    &&& s.signer.name@ == r.name
    &&& opt_chars(s.signer.email) == r.email
    &&& opt_chars(s.signer.title) == r.title
    &&& opt_chars(s.sign_time) == r.time
    &&& s.hash_algorithm == r.alg
    &&& s.commitment == r.commit
}

/// Whether an error is the one a failure stands for.
pub open spec fn fail_is(e: PptxError, f: ReadFail) -> bool {
    match f {
        ReadFail::Invalid => e is InvalidXml,
        ReadFail::Reader => e == PptxError::Xml,
    }
}

/// The algorithm after the attributes `attrs` (see `alg_after`).
fn alg_from_attrs(attrs: &Vec<Option<(Vec<u8>, Vec<u8>)>>, alg: HashAlgorithm) -> (r: HashAlgorithm)
    ensures
        r == alg_after(attrs_view(attrs@), alg),
{
    let ghost l = attrs_view(attrs@);
    let mut cur = alg;
    let mut j: usize = 0;
    while j < attrs.len()
        invariant
            j <= attrs.len(),
            l == attrs_view(attrs@),
            cur == alg_after(l.take(j as int), alg),
        decreases attrs.len() - j,
    {
        assert(l.take(j as int + 1).drop_last() == l.take(j as int));
        match &attrs[j] {
            Some((k, v)) => {
                let ln = local_name(k.as_slice());
                if bytes_equal_str(ln.as_slice(), "Algorithm") {
                    let val = str_to_chars(string_from_utf8_lossy(v.as_slice()).as_str());
                    let s256 = str_to_chars("sha256");
                    let s512 = str_to_chars("sha512");
                    proof { reveal_strlit("sha256"); reveal_strlit("sha512"); }
                    cur = if crate::id_list::find_chars(&val, &s256, 0).is_some() {
                        HashAlgorithm::Sha256
                    } else if crate::id_list::find_chars(&val, &s512, 0).is_some() {
                        HashAlgorithm::Sha512
                    } else {
                        HashAlgorithm::Sha1
                    };
                }
            },
            None => {},
        }
        j = j + 1;
    }
    assert(l.take(j as int) == l);
    cur
}

/// The algorithm after a `SignatureMethod` tag (see `method_alg`).
fn alg_from_tag(c: &Vec<u8>, n: usize, alg: HashAlgorithm) -> (r: HashAlgorithm)
    ensures
        r == method_alg(c@, n, alg),
{
    match attributes_of(c.as_slice(), n) {
        Some(attrs) => alg_from_attrs(&attrs, alg),
        None => alg,
    }
}

/// The commitment that a `CommitmentTypeId` text names (see `commitment_of`).
fn commitment_from(t: &str) -> (r: SignatureCommitment)
    ensures
        r == commitment_of(t@),
{
    let v = str_to_chars(t);
    let a = str_to_chars("/approved");
    let b = str_to_chars("/reviewed");
    proof { reveal_strlit("/approved"); reveal_strlit("/reviewed"); }
    if v.len() >= 9 && crate::id_list::occurs_at_exec(&v, &a, v.len() - 9) {
        SignatureCommitment::Approved
    } else if v.len() >= 9 && crate::id_list::occurs_at_exec(&v, &b, v.len() - 9) {
        SignatureCommitment::Reviewed
    } else {
        SignatureCommitment::Created
    }
}

/// Reads the metadata of a digital signature from its XML part: the signer's name, email
/// and title, the signing time, the hash algorithm and the commitment (see `signature_read`).
pub fn parse_signature_xml(xml_bytes: &[u8]) -> (r: Result<DigitalSignature, PptxError>)
    ensures
        match signature_read(xml_bytes@) {
            Ok(st) => r matches Ok(s) && sig_is(s, st),
            Err(f) => r matches Err(e) && fail_is(e, f),
        },
{
    if crate::text::str_from_utf8(xml_bytes).is_none() {
        return Err(PptxError::InvalidXml("signature part is not UTF-8".to_owned()));
    }
    let n = xml_bytes.len();
    let mut reader = xml_reader(xml_bytes);
    let ghost ev = xml_events(xml_bytes@);
    let ghost mut i: int = 0;
    let mut name = String::new();
    let mut email: Option<String> = None;
    let mut title: Option<String> = None;
    let mut time: Option<String> = None;
    let mut alg = HashAlgorithm::Sha1;
    let mut commit = SignatureCommitment::Created;
    let mut current: Option<SigField> = None;
    assert(name@ == Seq::<char>::empty());
    loop
        invariant
            ev == xml_events(xml_bytes@),
            vstd::utf8::valid_utf8(xml_bytes@),
            0 < ev.len() <= n + 1,
            is_final(ev.last()),
            forall|k: int| 0 <= k < ev.len() - 1 ==> !is_final(#[trigger] ev[k]),
            0 <= i < ev.len(),
            reader_events(reader) == ev.subrange(i, ev.len() as int),
            sig_from(ev, 0, sig_start()) == sig_from(ev, i, (SigRead {
                name: name@,
                email: opt_chars(email),
                title: opt_chars(title),
                time: opt_chars(time),
                alg,
                commit,
                current,
            })),
        decreases ev.len() - i,
    {
        let e = next_event(&mut reader);
        proof {
            if i < ev.len() - 1 {
                assert(ev.subrange(i, ev.len() as int).drop_first() == ev.subrange(i + 1, ev.len() as int));
            }
        }
        match e {
            XmlEvent::Start(c, k) => {
                let ln = tag_local(c.as_slice(), k);
                if bytes_equal_str(ln.as_slice(), "SignatureMethod") {
                    alg = alg_from_tag(&c, k, alg);
                } else if bytes_equal_str(ln.as_slice(), "SignerName") {
                    current = Some(SigField::Name);
                } else if bytes_equal_str(ln.as_slice(), "SignerEmail") {
                    current = Some(SigField::Email);
                } else if bytes_equal_str(ln.as_slice(), "SignerTitle") {
                    current = Some(SigField::Title);
                } else if bytes_equal_str(ln.as_slice(), "Value") {
                    current = Some(SigField::Time);
                } else if bytes_equal_str(ln.as_slice(), "CommitmentTypeId") {
                    current = Some(SigField::Commitment);
                }
            },
            XmlEvent::Empty(c, k) => {
                let ln = tag_local(c.as_slice(), k);
                if bytes_equal_str(ln.as_slice(), "SignatureMethod") {
                    alg = alg_from_tag(&c, k, alg);
                }
            },
            XmlEvent::Text(t) => {
                match current {
                    Some(f) => match t {
                        Some(text) => {
                            match f {
                                SigField::Name => { name = text; },
                                SigField::Email => { email = Some(text); },
                                SigField::Title => { title = Some(text); },
                                SigField::Time => { time = Some(text); },
                                SigField::Commitment => { commit = commitment_from(text.as_str()); },
                            }
                        },
                        None => {
                            return Err(PptxError::InvalidXml("signature text is not UTF-8".to_owned()));
                        },
                    },
                    None => {},
                }
            },
            XmlEvent::End(_) => {
                current = None;
            },
            XmlEvent::Eof => {
                let signer = SignerInfo { name, email, title };
                return Ok(DigitalSignature { signer, hash_algorithm: alg, sign_time: time, commitment: commit });
            },
            XmlEvent::Error => {
                return Err(PptxError::Xml);
            },
            XmlEvent::Ref(_) | XmlEvent::Other => {},
        }
        proof { i = i + 1; }
    }
}


/// The signatures read from the parts that the signature relationships `rels[i..]` point to,
/// in order, targets resolved against `base`: a target that is not a part is passed over;
/// an external relationship, or a part that cannot be read, fails.
pub open spec fn sigs_from(pkg: PackageView, rels: Seq<RelView>, base: Seq<char>, i: int) -> Result<Seq<SigRead>, ReadFail>
    decreases rels.len() - i,
{
    if i < 0 || i >= rels.len() {
        Ok(Seq::empty())
    } else if rels[i].is_external {
        Err(ReadFail::Invalid)
    } else {
        match find_part(pkg.parts, resolve(base, rels[i].target_ref), 0) {
            None => sigs_from(pkg, rels, base, i + 1),
            Some(k) => match signature_read(pkg.parts[k].blob) {
                Err(f) => Err(f),
                Ok(s) => match sigs_from(pkg, rels, base, i + 1) {
                    Ok(rest) => Ok(seq![s] + rest),
                    Err(f) => Err(f),
                },
            },
        }
    }
}

/// The digital signatures of a package: none without the signature origin part, else those
/// that the origin's signature relationships point to (see `sigs_from`).
pub open spec fn signatures_of(pkg: PackageView) -> Result<Seq<SigRead>, ReadFail> {
    match find_part(pkg.parts, origin_name(), 0) {
        None => Ok(Seq::empty()),
        Some(o) => sigs_from(
            pkg,
            of_type(pkg.parts[o].rels.rels, DIGITAL_SIGNATURE_RT@),
            crate::opc::uri::base_uri_spec(pkg.parts[o].partname),
            0,
        ),
    }
}

/// `rest` with the signatures `done` in front.
pub open spec fn after(done: Seq<SigRead>, rest: Result<Seq<SigRead>, ReadFail>) -> Result<Seq<SigRead>, ReadFail> {
    match rest {
        Ok(x) => Ok(done + x),
        Err(f) => Err(f),
    }
}

impl Presentation {
    /// The digital signatures of the presentation, read back from their parts (see
    /// `signatures_of`).
    pub fn digital_signatures(&self) -> (r: Result<Vec<DigitalSignature>, PptxError>)
        ensures
            match signatures_of(self@) {
                Ok(l) => r matches Ok(v) && v@.len() == l.len() && forall|i: int| 0 <= i < l.len() ==> sig_is(#[trigger] v@[i], l[i]),
                Err(f) => r matches Err(e) && fail_is(e, f),
            },
    {
        proof { self.lemma_view(); }
        let pkg = self.package();
        let o = match pkg.part_index("/_xmlsignatures/origin.sigs") {
            Some(o) => o,
            None => return Ok(Vec::new()),
        };
        proof { lemma_find_part_found(self@.parts, origin_name(), 0); }
        let origin = pkg.part_at(o);
        let rels = origin.rels.all_by_reltype(DIGITAL_SIGNATURE_RT);
        let base = origin.partname.base_uri();
        let ghost l = of_type(self@.parts[o as int].rels.rels, DIGITAL_SIGNATURE_RT@);
        let ghost mut done: Seq<SigRead> = Seq::empty();
        let mut out: Vec<DigitalSignature> = Vec::new();
        let mut i: usize = 0;
        while i < rels.len()
            invariant
                i <= rels.len(),
                rels@.len() == l.len(),
                forall|j: int| 0 <= j < rels@.len() ==> #[trigger] rels@[j]@ == l[j],
                base@ == crate::opc::uri::base_uri_spec(self@.parts[o as int].partname),
                pkg@ == self@,
                o < self@.parts.len(),
                signatures_of(self@) == after(done, sigs_from(self@, l, base@, i as int)),
                out@.len() == done.len(),
                forall|j: int| 0 <= j < done.len() ==> sig_is(#[trigger] out@[j], done[j]),
            decreases rels.len() - i,
        {
            let rel = rels[i];
            assert(rel@ == l[i as int]);
            let pn = match rel.target_partname(base.as_str()) {
                Ok(pn) => pn,
                Err(e) => {
                    assert(sigs_from(self@, l, base@, i as int) == Err::<Seq<SigRead>, ReadFail>(ReadFail::Invalid));
                    return Err(e);
                },
            };
            match pkg.part(&pn) {
                None => {},
                Some(p) => {
                    let sig = parse_signature_xml(p.blob.as_slice())?;
                    proof {
                        let s0 = signature_read(p@.blob)->Ok_0;
                        assert(done.push(s0) + match sigs_from(self@, l, base@, i + 1) { Ok(x) => x, Err(_) => Seq::empty() }
                            == done + (seq![s0] + match sigs_from(self@, l, base@, i + 1) { Ok(x) => x, Err(_) => Seq::empty() }));
                        done = done.push(s0);
                    }
                    out.push(sig);
                },
            }
            i = i + 1;
        }
        assert(done + Seq::<SigRead>::empty() == done);
        Ok(out)
    }
}

} // verus!
