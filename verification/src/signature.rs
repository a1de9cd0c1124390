//! Digital signature metadata and its W3C XML Signature skeleton.
//!
//! The document written here is structural only: `DigestValue` and
//! `SignatureValue` are empty placeholders, no cryptographic signing happens.
use vstd::prelude::*;
use crate::text::{string_push_str, push_escaped, xml_escape_spec};

verus! {

/// Content type for XML digital signature origin.
pub const DIGITAL_SIGNATURE_ORIGIN_CT: &'static str =
    "application/vnd.openxmlformats-package.digital-signature-origin";

/// Content type for XML digital signature parts.
pub const DIGITAL_SIGNATURE_XML_CT: &'static str =
    "application/vnd.openxmlformats-package.digital-signature-xmlsignature+xml";

/// Relationship type for the digital signature origin.
pub const DIGITAL_SIGNATURE_ORIGIN_RT: &'static str =
    "http://schemas.openxmlformats.org/package/2006/relationships/digital-signature/origin";

/// Relationship type from origin to individual signature parts.
pub const DIGITAL_SIGNATURE_RT: &'static str =
    "http://schemas.openxmlformats.org/package/2006/relationships/digital-signature/signature";

/// The hash algorithm used for digest computation.
#[non_exhaustive]
#[derive(Debug, Clone, Copy, PartialEq, Eq, Structural)]
pub enum HashAlgorithm {
    /// SHA-1 is cryptographically broken; prefer SHA-256 or stronger.
    Sha1,
    Sha256,
    Sha512,
}

/// The W3C algorithm URI of a hash algorithm.
pub open spec fn algorithm_uri_spec(h: HashAlgorithm) -> Seq<char> {
    match h {
        HashAlgorithm::Sha1 => "http://www.w3.org/2000/09/xmldsig#sha1"@,
        HashAlgorithm::Sha256 => "http://www.w3.org/2001/04/xmlenc#sha256"@,
        HashAlgorithm::Sha512 => "http://www.w3.org/2001/04/xmlenc#sha512"@,
    }
}

/// The attribute name of a hash algorithm.
pub open spec fn algorithm_name_spec(h: HashAlgorithm) -> Seq<char> {
    match h {
        HashAlgorithm::Sha1 => "SHA1"@,
        HashAlgorithm::Sha256 => "SHA256"@,
        HashAlgorithm::Sha512 => "SHA512"@,
    }
}

impl HashAlgorithm {
    /// Return the W3C XML Signature algorithm URI for this hash algorithm.
    pub fn algorithm_uri(&self) -> (r: &'static str)
        ensures
            r@ == algorithm_uri_spec(*self),
    {
        match self {
            HashAlgorithm::Sha1 => "http://www.w3.org/2000/09/xmldsig#sha1",
            HashAlgorithm::Sha256 => "http://www.w3.org/2001/04/xmlenc#sha256",
            HashAlgorithm::Sha512 => "http://www.w3.org/2001/04/xmlenc#sha512",
        }
    }

    /// Return the algorithm name as used in XML attributes.
    pub fn name(&self) -> (r: &'static str)
        ensures
            r@ == algorithm_name_spec(*self),
    {
        match self {
            HashAlgorithm::Sha1 => "SHA1",
            HashAlgorithm::Sha256 => "SHA256",
            HashAlgorithm::Sha512 => "SHA512",
        }
    }
}

/// The commitment type for the signature.
#[non_exhaustive]
#[derive(Debug, Clone, Copy, PartialEq, Eq, Structural)]
pub enum SignatureCommitment {
    Created,
    Approved,
    Reviewed,
}

/// The OPC commitment type URI of a commitment.
pub open spec fn commitment_uri_spec(c: SignatureCommitment) -> Seq<char> {
    match c {
        SignatureCommitment::Created =>
            "http://schemas.openxmlformats.org/package/2006/RelationshipTransform/opc-SignatureOrigin/created"@,
        SignatureCommitment::Approved =>
            "http://schemas.openxmlformats.org/package/2006/RelationshipTransform/opc-SignatureOrigin/approved"@,
        SignatureCommitment::Reviewed =>
            "http://schemas.openxmlformats.org/package/2006/RelationshipTransform/opc-SignatureOrigin/reviewed"@,
    }
}

impl SignatureCommitment {
    /// Return the OPC signature commitment type URI.
    pub fn commitment_uri(&self) -> (r: &'static str)
        ensures
            r@ == commitment_uri_spec(*self),
    {
        match self {
            SignatureCommitment::Created =>
                "http://schemas.openxmlformats.org/package/2006/RelationshipTransform/opc-SignatureOrigin/created",
            SignatureCommitment::Approved =>
                "http://schemas.openxmlformats.org/package/2006/RelationshipTransform/opc-SignatureOrigin/approved",
            SignatureCommitment::Reviewed =>
                "http://schemas.openxmlformats.org/package/2006/RelationshipTransform/opc-SignatureOrigin/reviewed",
        }
    }
}

/// Information about the person who created the signature.
#[derive(Debug, Clone, PartialEq, Eq)]
pub struct SignerInfo {
    /// The signer's display name.
    pub name: String,
    /// The signer's email address.
    pub email: Option<String>,
    /// The signer's title or role.
    pub title: Option<String>,
}

impl SignerInfo {
    /// Create a new `SignerInfo` with only a name.
    pub fn new(name: &str) -> (r: Self)
        ensures
            r.name@ == name@,
            r.email is None,
            r.title is None,
    {
        SignerInfo { name: name.to_owned(), email: None, title: None }
    }

    /// Builder method: set the email address.
    pub fn with_email(self, email: &str) -> (r: Self)
        ensures
            r.name == self.name,
            r.email matches Some(e) && e@ == email@,
            r.title == self.title,
    {
        SignerInfo { name: self.name, email: Some(email.to_owned()), title: self.title }
    }

    /// Builder method: set the title.
    pub fn with_title(self, title: &str) -> (r: Self)
        ensures
            r.name == self.name,
            r.email == self.email,
            r.title matches Some(t) && t@ == title@,
    {
        SignerInfo { name: self.name, email: self.email, title: Some(title.to_owned()) }
    }
}

/// The metadata of a digital signature part.
///
/// The XML written for it is a W3C XML Signature skeleton; `DigestValue` and
/// `SignatureValue` stay empty, signing is left to an external tool.
#[derive(Debug, Clone, PartialEq, Eq)]
pub struct DigitalSignature {
    /// Information about the signer.
    pub signer: SignerInfo,
    /// The hash algorithm for digest computation.
    pub hash_algorithm: HashAlgorithm,
    /// Optional ISO 8601 datetime string for when the signature was created.
    pub sign_time: Option<String>,
    /// The commitment type for the signature.
    pub commitment: SignatureCommitment,
}

impl DigitalSignature {
    /// Create a new digital signature with the given signer and algorithm.
    pub fn new(signer: SignerInfo, algorithm: HashAlgorithm) -> (r: Self)
        ensures
            r.signer == signer,
            r.hash_algorithm == algorithm,
            r.sign_time is None,
            r.commitment == SignatureCommitment::Created,
    {
        DigitalSignature {
            signer,
            hash_algorithm: algorithm,
            sign_time: None,
            commitment: SignatureCommitment::Created,
        }
    }

    /// Builder method: set the commitment type.
    pub fn with_commitment(self, commitment: SignatureCommitment) -> (r: Self)
        ensures
            r.signer == self.signer,
            r.hash_algorithm == self.hash_algorithm,
            r.sign_time == self.sign_time,
            r.commitment == commitment,
    {
        DigitalSignature {
            signer: self.signer,
            hash_algorithm: self.hash_algorithm,
            sign_time: self.sign_time,
            commitment,
        }
    }

    /// Builder method: set the signing time.
    pub fn with_sign_time(self, time: &str) -> (r: Self)
        ensures
            r.signer == self.signer,
            r.hash_algorithm == self.hash_algorithm,
            r.sign_time matches Some(t) && t@ == time@,
            r.commitment == self.commitment,
    {
        DigitalSignature {
            signer: self.signer,
            hash_algorithm: self.hash_algorithm,
            sign_time: Some(time.to_owned()),
            commitment: self.commitment,
        }
    }
}

/// The `<SignedInfo>` element for a hash algorithm.
pub open spec fn signed_info_xml(h: HashAlgorithm) -> Seq<char> {
    "<SignedInfo>"@
        + "<CanonicalizationMethod Algorithm=\"http://www.w3.org/TR/2001/REC-xml-c14n-20010315\"/>"@
        + "<SignatureMethod Algorithm=\""@ + algorithm_uri_spec(h) + "\"/>"@
        + "<Reference URI=\"/ppt/presentation.xml\">"@
        + "<DigestMethod Algorithm=\""@ + algorithm_uri_spec(h) + "\"/>"@
        + "<DigestValue/>"@
        + "</Reference>"@
        + "</SignedInfo>"@
}

/// One optional signature property: nothing when absent.
pub open spec fn optional_property_xml(
    id: Seq<char>,
    open_tag: Seq<char>,
    close_tag: Seq<char>,
    value: Option<String>,
) -> Seq<char> {
    match value {
        Some(v) => "<SignatureProperty Id=\""@ + id + "\" Target=\"#idSignature\">"@ + open_tag
            + xml_escape_spec(v@) + close_tag + "</SignatureProperty>"@,
        None => Seq::empty(),
    }
}

/// The `<Object>` element holding the signature properties.
pub open spec fn signature_object_xml(sig: DigitalSignature) -> Seq<char> {
    "<Object xmlns:mdssi=\"http://schemas.openxmlformats.org/package/2006/digital-signature\">"@
        + "<SignatureProperties>"@
        + "<SignatureProperty Id=\"idSignerName\" Target=\"#idSignature\">"@
        + "<mdssi:SignerName>"@ + xml_escape_spec(sig.signer.name@) + "</mdssi:SignerName>"@
        + "</SignatureProperty>"@
        + optional_property_xml("idSignerEmail"@, "<mdssi:SignerEmail>"@, "</mdssi:SignerEmail>"@, sig.signer.email)
        + optional_property_xml("idSignerTitle"@, "<mdssi:SignerTitle>"@, "</mdssi:SignerTitle>"@, sig.signer.title)
        + optional_property_xml(
            "idSignTime"@,
            "<mdssi:SignatureTime><mdssi:Format>YYYY-MM-DDThh:mm:ssTZD</mdssi:Format><mdssi:Value>"@,
            "</mdssi:Value></mdssi:SignatureTime>"@,
            sig.sign_time,
        )
        + "<SignatureProperty Id=\"idCommitment\" Target=\"#idSignature\">"@
        + "<mdssi:CommitmentTypeIndication><mdssi:CommitmentTypeId>"@
        + commitment_uri_spec(sig.commitment)
        + "</mdssi:CommitmentTypeId></mdssi:CommitmentTypeIndication>"@
        + "</SignatureProperty>"@
        + "</SignatureProperties>"@
        + "</Object>"@
}

/// The `<Signature>` element written for a signature.
pub open spec fn signature_xml(sig: DigitalSignature) -> Seq<char> {
    "<Signature xmlns=\"http://www.w3.org/2000/09/xmldsig#\" Id=\"idSignature\">"@
        + signed_info_xml(sig.hash_algorithm)
        + "<SignatureValue/>"@
        + signature_object_xml(sig)
        + "</Signature>"@
}

/// The `<DigestMethod>` element of a hash algorithm.
pub open spec fn digest_method_tag(h: HashAlgorithm) -> Seq<char> {
    "<DigestMethod Algorithm=\""@ + algorithm_uri_spec(h) + "\"/>"@
}

/// The `<SignatureMethod>` element of a hash algorithm.
pub open spec fn signature_method_tag(h: HashAlgorithm) -> Seq<char> {
    "<SignatureMethod Algorithm=\""@ + algorithm_uri_spec(h) + "\"/>"@
}

/// An occurrence inside a text stays an occurrence, shifted, when text is added around it.
pub proof fn lemma_occurs_within(a: Seq<char>, t: Seq<char>, b: Seq<char>, pat: Seq<char>, i: int)
    requires
        crate::scan::occurs_at(t, pat, i),
    ensures
        crate::scan::occurs_at(a + t + b, pat, a.len() + i),
{
    let x = a + t + b;
    assert(x.subrange(a.len() + i, a.len() + i + pat.len()) =~= t.subrange(i, i + pat.len()));
}

/// The written signature names its own hash algorithm both as the signature method and as
/// the digest method of its reference: both elements, with that algorithm's URI, occur in
/// the XML.
pub proof fn lemma_signature_names_its_algorithm(sig: DigitalSignature)
    ensures
        exists|i: int| #[trigger] crate::scan::occurs_at(signature_xml(sig), signature_method_tag(sig.hash_algorithm), i),
        exists|i: int| #[trigger] crate::scan::occurs_at(signature_xml(sig), digest_method_tag(sig.hash_algorithm), i),
{
    let h = sig.hash_algorithm;
    let si = signed_info_xml(h);
    let pre = "<SignedInfo>"@
        + "<CanonicalizationMethod Algorithm=\"http://www.w3.org/TR/2001/REC-xml-c14n-20010315\"/>"@;
    let sm = signature_method_tag(h);
    let mid = "<Reference URI=\"/ppt/presentation.xml\">"@;
    let dm = digest_method_tag(h);
    let post = "<DigestValue/>"@ + "</Reference>"@ + "</SignedInfo>"@;
    assert(si =~= pre + sm + mid + dm + post);
    assert(sm.subrange(0, sm.len() as int) =~= sm);
    lemma_occurs_within(pre, sm, mid + dm + post, sm, 0);
    assert(pre + sm + (mid + dm + post) =~= si);
    assert(dm.subrange(0, dm.len() as int) =~= dm);
    lemma_occurs_within(pre + sm + mid, dm, post, dm, 0);
    assert(pre + sm + mid + dm + post =~= si);
    let head = "<Signature xmlns=\"http://www.w3.org/2000/09/xmldsig#\" Id=\"idSignature\">"@;
    let tail = "<SignatureValue/>"@ + signature_object_xml(sig) + "</Signature>"@;
    assert(signature_xml(sig) =~= head + si + tail);
    lemma_occurs_within(head, si, tail, sm, pre.len() as int);
    lemma_occurs_within(head, si, tail, dm, (pre.len() + sm.len() + mid.len()) as int);
}

/// The written signature names its signer (escaped) in a `SignerName` element and its
/// commitment type by URI in a `CommitmentTypeId` element.
pub proof fn lemma_signature_names_signer_and_commitment(sig: DigitalSignature)
    ensures
        exists|i: int| #[trigger] crate::scan::occurs_at(signature_xml(sig),
            "<mdssi:SignerName>"@ + xml_escape_spec(sig.signer.name@) + "</mdssi:SignerName>"@, i),
        exists|i: int| #[trigger] crate::scan::occurs_at(signature_xml(sig),
            "<mdssi:CommitmentTypeId>"@ + commitment_uri_spec(sig.commitment) + "</mdssi:CommitmentTypeId>"@, i),
{
    let obj = signature_object_xml(sig);
    let p1 = "<Object xmlns:mdssi=\"http://schemas.openxmlformats.org/package/2006/digital-signature\">"@
        + "<SignatureProperties>"@
        + "<SignatureProperty Id=\"idSignerName\" Target=\"#idSignature\">"@;
    let nm = "<mdssi:SignerName>"@ + xml_escape_spec(sig.signer.name@) + "</mdssi:SignerName>"@;
    let p2 = "</SignatureProperty>"@
        + optional_property_xml("idSignerEmail"@, "<mdssi:SignerEmail>"@, "</mdssi:SignerEmail>"@, sig.signer.email)
        + optional_property_xml("idSignerTitle"@, "<mdssi:SignerTitle>"@, "</mdssi:SignerTitle>"@, sig.signer.title)
        + optional_property_xml(
            "idSignTime"@,
            "<mdssi:SignatureTime><mdssi:Format>YYYY-MM-DDThh:mm:ssTZD</mdssi:Format><mdssi:Value>"@,
            "</mdssi:Value></mdssi:SignatureTime>"@,
            sig.sign_time,
        )
        + "<SignatureProperty Id=\"idCommitment\" Target=\"#idSignature\">"@
        + "<mdssi:CommitmentTypeIndication>"@;
    let cm = "<mdssi:CommitmentTypeId>"@ + commitment_uri_spec(sig.commitment) + "</mdssi:CommitmentTypeId>"@;
    let p3 = "</mdssi:CommitmentTypeIndication>"@ + "</SignatureProperty>"@ + "</SignatureProperties>"@ + "</Object>"@;
    assert("<mdssi:CommitmentTypeIndication><mdssi:CommitmentTypeId>"@ =~= "<mdssi:CommitmentTypeIndication>"@ + "<mdssi:CommitmentTypeId>"@) by {
        reveal_strlit("<mdssi:CommitmentTypeIndication><mdssi:CommitmentTypeId>");
        reveal_strlit("<mdssi:CommitmentTypeIndication>");
        reveal_strlit("<mdssi:CommitmentTypeId>");
    }
    assert("</mdssi:CommitmentTypeId></mdssi:CommitmentTypeIndication>"@ =~= "</mdssi:CommitmentTypeId>"@ + "</mdssi:CommitmentTypeIndication>"@) by {
        reveal_strlit("</mdssi:CommitmentTypeId></mdssi:CommitmentTypeIndication>");
        reveal_strlit("</mdssi:CommitmentTypeId>");
        reveal_strlit("</mdssi:CommitmentTypeIndication>");
    }
    assert(obj =~= p1 + nm + p2 + cm + p3);
    assert(nm.subrange(0, nm.len() as int) =~= nm);
    assert(cm.subrange(0, cm.len() as int) =~= cm);
    lemma_occurs_within(p1, nm, p2 + cm + p3, nm, 0);
    assert(p1 + nm + (p2 + cm + p3) =~= obj);
    lemma_occurs_within(p1 + nm + p2, cm, p3, cm, 0);
    let head = "<Signature xmlns=\"http://www.w3.org/2000/09/xmldsig#\" Id=\"idSignature\">"@
        + signed_info_xml(sig.hash_algorithm) + "<SignatureValue/>"@;
    assert(signature_xml(sig) =~= head + obj + "</Signature>"@);
    lemma_occurs_within(head, obj, "</Signature>"@, nm, p1.len() as int);
    lemma_occurs_within(head, obj, "</Signature>"@, cm, (p1.len() + nm.len() + p2.len()) as int);
}

fn write_optional_property(
    out: &mut String,
    id: &str,
    open_tag: &str,
    close_tag: &str,
    value: &Option<String>,
)
    ensures
        final(out)@ == old(out)@ + optional_property_xml(id@, open_tag@, close_tag@, *value),
{
    match value {
        Some(v) => {
            string_push_str(out, "<SignatureProperty Id=\"");
            string_push_str(out, id);
            string_push_str(out, "\" Target=\"#idSignature\">");
            string_push_str(out, open_tag);
            push_escaped(out, v.as_str());
            string_push_str(out, close_tag);
            string_push_str(out, "</SignatureProperty>");
        },
        None => {
            assert(old(out)@ + Seq::<char>::empty() == old(out)@);
        },
    }
}

fn write_signed_info(out: &mut String, h: HashAlgorithm)
    ensures
        final(out)@ == old(out)@ + signed_info_xml(h),
{
    let uri = h.algorithm_uri();
    string_push_str(out, "<SignedInfo>");
    string_push_str(out, "<CanonicalizationMethod Algorithm=\"http://www.w3.org/TR/2001/REC-xml-c14n-20010315\"/>");
    string_push_str(out, "<SignatureMethod Algorithm=\"");
    string_push_str(out, uri);
    string_push_str(out, "\"/>");
    string_push_str(out, "<Reference URI=\"/ppt/presentation.xml\">");
    string_push_str(out, "<DigestMethod Algorithm=\"");
    string_push_str(out, uri);
    string_push_str(out, "\"/>");
    string_push_str(out, "<DigestValue/>");
    string_push_str(out, "</Reference>");
    string_push_str(out, "</SignedInfo>");
    assert(out@ =~= old(out)@ + signed_info_xml(h));
}

fn write_signer_name(out: &mut String, name: &str)
    ensures
        final(out)@ == old(out)@
            + "<SignatureProperty Id=\"idSignerName\" Target=\"#idSignature\">"@
            + "<mdssi:SignerName>"@ + xml_escape_spec(name@) + "</mdssi:SignerName>"@
            + "</SignatureProperty>"@,
{
    string_push_str(out, "<SignatureProperty Id=\"idSignerName\" Target=\"#idSignature\">");
    string_push_str(out, "<mdssi:SignerName>");
    push_escaped(out, name);
    string_push_str(out, "</mdssi:SignerName>");
    string_push_str(out, "</SignatureProperty>");
}

fn write_commitment(out: &mut String, c: SignatureCommitment)
    ensures
        final(out)@ == old(out)@
            + "<SignatureProperty Id=\"idCommitment\" Target=\"#idSignature\">"@
            + "<mdssi:CommitmentTypeIndication><mdssi:CommitmentTypeId>"@
            + commitment_uri_spec(c)
            + "</mdssi:CommitmentTypeId></mdssi:CommitmentTypeIndication>"@
            + "</SignatureProperty>"@,
{
    string_push_str(out, "<SignatureProperty Id=\"idCommitment\" Target=\"#idSignature\">");
    string_push_str(out, "<mdssi:CommitmentTypeIndication><mdssi:CommitmentTypeId>");
    string_push_str(out, c.commitment_uri());
    string_push_str(out, "</mdssi:CommitmentTypeId></mdssi:CommitmentTypeIndication>");
    string_push_str(out, "</SignatureProperty>");
}

fn write_object(out: &mut String, sig: &DigitalSignature)
    ensures
        final(out)@ == old(out)@ + signature_object_xml(*sig),
{
    string_push_str(out, "<Object xmlns:mdssi=\"http://schemas.openxmlformats.org/package/2006/digital-signature\">");
    string_push_str(out, "<SignatureProperties>");
    let ghost s0 = out@;
    write_signer_name(out, sig.signer.name.as_str());
    let ghost s1 = out@;
    write_optional_property(out, "idSignerEmail", "<mdssi:SignerEmail>", "</mdssi:SignerEmail>", &sig.signer.email);
    let ghost s2 = out@;
    write_optional_property(out, "idSignerTitle", "<mdssi:SignerTitle>", "</mdssi:SignerTitle>", &sig.signer.title);
    let ghost s3 = out@;
    write_optional_property(
        out,
        "idSignTime",
        "<mdssi:SignatureTime><mdssi:Format>YYYY-MM-DDThh:mm:ssTZD</mdssi:Format><mdssi:Value>",
        "</mdssi:Value></mdssi:SignatureTime>",
        &sig.sign_time,
    );
    let ghost s4 = out@;
    write_commitment(out, sig.commitment);
    let ghost s5 = out@;
    string_push_str(out, "</SignatureProperties>");
    string_push_str(out, "</Object>");
    assert(out@ =~= old(out)@ + signature_object_xml(*sig));
}

impl DigitalSignature {
    /// Appends the structural W3C XML Signature document for this metadata.
    pub fn write_xml(&self, out: &mut String)
        ensures
            final(out)@ == old(out)@ + signature_xml(*self),
    {
        string_push_str(out, "<Signature xmlns=\"http://www.w3.org/2000/09/xmldsig#\" Id=\"idSignature\">");
        write_signed_info(out, self.hash_algorithm);
        string_push_str(out, "<SignatureValue/>");
        write_object(out, self);
        string_push_str(out, "</Signature>");
        assert(out@ =~= old(out)@ + signature_xml(*self));
    }

    /// The structural W3C XML Signature document for this metadata.
    pub fn to_xml_string(&self) -> (r: String)
        ensures
            r@ == signature_xml(*self),
    {
        let mut s = String::new();
        self.write_xml(&mut s);
        assert(s@ == Seq::<char>::empty() + signature_xml(*self));
        s
    }
}

/// The XML declaration that opens every signature part.
pub open spec fn xml_declaration() -> Seq<char> {
    "<?xml version=\"1.0\" encoding=\"UTF-8\"?>"@
}

/// Generate the full XML document for a signature part: the declaration followed by the
/// signature, as UTF-8 bytes.
pub fn signature_to_xml(sig: &DigitalSignature) -> (r: Vec<u8>)
    ensures
        r@ == vstd::utf8::encode_utf8(xml_declaration() + signature_xml(*sig)),
{
    let mut xml = String::new();
    string_push_str(&mut xml, "<?xml version=\"1.0\" encoding=\"UTF-8\"?>");
    sig.write_xml(&mut xml);
    crate::text::string_into_bytes(xml)
}

} // verus!
