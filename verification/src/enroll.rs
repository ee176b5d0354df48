//! Device enrollment: the CSR for a common name, the enrollment request URL,
//! and the interpretation of the enrollment endpoint's reply.

use vstd::prelude::*;
use vstd::string::StrSliceExecFns;
use vstd::string::StringExecFns;

use crate::client::{json_member_text, json_string_member, member_or};
use crate::error::AdminError;
use crate::text::owned;

verus! {

broadcast use vstd::seq_lib::group_seq_properties;

// ---------------------------------------------------------------------------
// Token text in the enrollment query
// ---------------------------------------------------------------------------

/// ASCII letters and digits.
pub open spec fn is_ascii_alnum(c: char) -> bool {
    ('0' <= c <= '9') || ('a' <= c <= 'z') || ('A' <= c <= 'Z')
}

/// The characters of `s` that are ASCII letters or digits, in order.
pub open spec fn alnum_only(s: Seq<char>) -> Seq<char> {
    s.filter(|c: char| is_ascii_alnum(c))
}

fn is_ascii_alnum_char(c: char) -> (r: bool)
    ensures
        r == is_ascii_alnum(c),
{
    ('0' <= c && c <= '9') || ('a' <= c && c <= 'z') || ('A' <= c && c <= 'Z')
}

/// Keeps only the ASCII letters and digits of a token (its own alphabet is
/// hex digits), which leaves nothing that would need escaping in a query.
pub fn urlencoding_minimal(s: &str) -> (r: String)
    ensures
        r@ == alnum_only(s@),
{
    let len = s.unicode_len();
    let mut out = String::new();
    let mut i: usize = 0;
    while i < len
        invariant
            len == s@.len(),
            0 <= i <= len,
            out@ == alnum_only(s@.take(i as int)),
        decreases len - i,
    {
        let c = s.get_char(i);
        proof {
            s@.take(i as int).lemma_filter_push(c, |c: char| is_ascii_alnum(c));
            assert(s@.take(i + 1) =~= s@.take(i as int).push(c));
        }
        if is_ascii_alnum_char(c) {
            out.push(c);
        }
        i = i + 1;
    }
    assert(s@.take(len as int) =~= s@);
    out
}

/// What remains holds only ASCII letters and digits, and text that holds
/// only those is left unchanged; so applying the filter twice changes
/// nothing more.
pub proof fn lemma_minimal_encoding_alphabet(s: Seq<char>)
    ensures
        forall|i: int| 0 <= i < alnum_only(s).len() ==> is_ascii_alnum(#[trigger] alnum_only(s)[i]),
        (forall|i: int| 0 <= i < s.len() ==> is_ascii_alnum(#[trigger] s[i])) ==> alnum_only(s) == s,
        alnum_only(alnum_only(s)) == alnum_only(s),
{
    lemma_alnum_only_pred(s);
    lemma_alnum_only_keeps(s);
    lemma_alnum_only_keeps(alnum_only(s));
}

proof fn lemma_alnum_only_pred(s: Seq<char>)
    ensures
        forall|i: int| 0 <= i < alnum_only(s).len() ==> is_ascii_alnum(#[trigger] alnum_only(s)[i]),
{
    assert forall|i: int| 0 <= i < alnum_only(s).len() implies is_ascii_alnum(
        #[trigger] alnum_only(s)[i],
    ) by {
        s.lemma_filter_pred(|c: char| is_ascii_alnum(c), i);
    }
}

proof fn lemma_alnum_only_keeps(s: Seq<char>)
    ensures
        (forall|i: int| 0 <= i < s.len() ==> is_ascii_alnum(#[trigger] s[i])) ==> alnum_only(s) == s,
    decreases s.len(),
{
    if forall|i: int| 0 <= i < s.len() ==> is_ascii_alnum(#[trigger] s[i]) {
        if s.len() > 0 {
            let front = s.drop_last();
            assert forall|i: int| 0 <= i < front.len() implies is_ascii_alnum(#[trigger] front[i]) by {
                assert(front[i] == s[i]);
            }
            lemma_alnum_only_keeps(front);
            front.lemma_filter_push(s.last(), |c: char| is_ascii_alnum(c));
            assert(front.push(s.last()) =~= s);
        } else {
            reveal(Seq::filter);
        }
    }
}

// ---------------------------------------------------------------------------
// Request and reply
// ---------------------------------------------------------------------------

/// The enrollment request URL: the signing endpoint under `base`, with the
/// invite token (reduced to letters and digits) as `token` query parameter
/// when one is given.
pub open spec fn enrollment_request_url(base: Seq<char>, token: Option<Seq<char>>) -> Seq<char> {
    match token {
        Some(t) => base + "/Marti/api/tls/signClient/v2"@ + "?token="@ + alnum_only(t),
        None => base + "/Marti/api/tls/signClient/v2"@,
    }
}

/// The enrollment request goes to the signing endpoint under the base URL;
/// with a token, the query carries only the token's ASCII letters and
/// digits, in their order, so nothing in it needs escaping.
pub proof fn lemma_enrollment_url_query(base: Seq<char>, token: Seq<char>)
    ensures
        enrollment_request_url(base, None) == base + "/Marti/api/tls/signClient/v2"@,
        ({
            let url = enrollment_request_url(base, Some(token));
            let prefix = base + "/Marti/api/tls/signClient/v2"@ + "?token="@;
            &&& url.take(prefix.len() as int) == prefix
            &&& forall|i: int|
                prefix.len() <= i < url.len() ==> ('0' <= #[trigger] url[i] <= '9' || 'a' <= url[i]
                    <= 'z' || 'A' <= url[i] <= 'Z')
            &&& (forall|k: int|
                0 <= k < token.len() ==> ('0' <= #[trigger] token[k] <= '9' || 'a' <= token[k] <= 'z'
                    || 'A' <= token[k] <= 'Z')) ==> url == prefix + token
        }),
{
    let url = enrollment_request_url(base, Some(token));
    let prefix = base + "/Marti/api/tls/signClient/v2"@ + "?token="@;
    lemma_minimal_encoding_alphabet(token);
    assert(url == prefix + alnum_only(token));
    assert(url.take(prefix.len() as int) =~= prefix);
    assert forall|i: int| prefix.len() <= i < url.len() implies ('0' <= #[trigger] url[i] <= '9'
        || 'a' <= url[i] <= 'z' || 'A' <= url[i] <= 'Z') by {
        assert(url[i] == alnum_only(token)[i - prefix.len()]);
        assert(is_ascii_alnum(alnum_only(token)[i - prefix.len()]));
    }
    if forall|k: int|
        0 <= k < token.len() ==> ('0' <= #[trigger] token[k] <= '9' || 'a' <= token[k] <= 'z' || 'A'
            <= token[k] <= 'Z') {
        assert forall|k: int| 0 <= k < token.len() implies is_ascii_alnum(#[trigger] token[k]) by {}
        assert(alnum_only(token) == token);
    }
}

/// Builds the enrollment request URL.
pub fn enrollment_url(base: &str, token: Option<&str>) -> (r: String)
    ensures
        r@ == enrollment_request_url(
            base@,
            match token {
                Some(t) => Some(t@),
                None => None,
            },
        ),
{
    let mut url = owned(base);
    url.append("/Marti/api/tls/signClient/v2");
    match token {
        Some(t) => {
            url.append("?token=");
            let kept = urlencoding_minimal(t);
            url.append(kept.as_str());
        },
        None => {},
    }
    url
}

/// A bare base64 certificate with PEM armor around it.
pub open spec fn pem_certificate(bare: Seq<char>) -> Seq<char> {
    "-----BEGIN CERTIFICATE-----\n"@ + bare + "\n-----END CERTIFICATE-----\n"@
}

/// Puts PEM armor back around the bare base64 certificate the server sends.
pub fn wrap_pem_certificate(bare_base64: &str) -> (r: String)
    ensures
        r@ == pem_certificate(bare_base64@),
{
    let mut r = owned("-----BEGIN CERTIFICATE-----\n");
    r.append(bare_base64);
    r.append("\n-----END CERTIFICATE-----\n");
    r
}

/// The certificate (as PEM) that a successful enrollment reply carries.
pub open spec fn enrolled_certificate(body: Seq<char>) -> Result<Seq<char>, AdminError> {
    match json_string_member(body, "signedCert"@) {
        None => Err(AdminError::EnrollmentReplyUnparsable),
        Some(None) => Err(AdminError::SignedCertMissing),
        Some(Some(bare)) => Ok(pem_certificate(bare)),
    }
}

/// Reads the signed certificate out of a successful enrollment reply and
/// armors it as PEM.
pub fn certificate_from_reply(body: &str) -> (r: Result<String, AdminError>)
    ensures
        crate::client::text_result_view(r) == enrolled_certificate(body@),
{
    let member = json_member_text(body, "signedCert");
    match member_or(member, AdminError::EnrollmentReplyUnparsable, AdminError::SignedCertMissing) {
        Ok(bare) => Ok(wrap_pem_certificate(bare.as_str())),
        Err(e) => Err(e),
    }
}

/// The error for an enrollment reply with a non-success status.
pub fn enrollment_failure(status: &str, body: &str) -> (e: AdminError)
    ensures
        e matches AdminError::EnrollmentRejected { status: s, body: b } && s@ == status@ && b@
            == body@,
{
    AdminError::EnrollmentRejected { status: owned(status), body: owned(body) }
}

/// Confirmation of a finished enrollment.
pub fn enrolled_message(cn: &str, out_cert: &str, out_key: &str) -> (r: String)
    ensures
        r@ == "Enrolled '"@ + cn@ + "'. Certificate: "@ + out_cert@ + ", key: "@ + out_key@,
{
    let mut r = owned("Enrolled '");
    r.append(cn);
    r.append("'. Certificate: ");
    r.append(out_cert);
    r.append(", key: ");
    r.append(out_key);
    r
}

// ---------------------------------------------------------------------------
// Key pair and certificate signing request (rcgen)
// ---------------------------------------------------------------------------

#[verifier::external_type_specification]
#[verifier::external_body]
pub struct ExKeyPair(rcgen::KeyPair);

#[verifier::external_type_specification]
#[verifier::external_body]
pub struct ExRcgenError(rcgen::Error);

#[verifier::external_type_specification]
#[verifier::external_body]
pub struct ExDistinguishedName(rcgen::DistinguishedName);

#[verifier::external_type_specification]
#[verifier::external_body]
pub struct ExCertificateParams(rcgen::CertificateParams);

#[verifier::external_type_specification]
#[verifier::external_body]
pub struct ExCertificateSigningRequest(rcgen::CertificateSigningRequest);

/// `rcgen::KeyPair::generate`: a fresh random ECDSA P-256 key pair, or an
/// error from the random source. Nothing is stated of the outcome.
pub assume_specification[ rcgen::KeyPair::generate ]() -> Result<rcgen::KeyPair, rcgen::Error>;

/// The attributes a `rcgen::DistinguishedName` holds: each attribute type,
/// written as its object identifier in dotted text, mapped to its value's
/// text.
pub uninterp spec fn dn_entries(dn: rcgen::DistinguishedName) -> Map<Seq<char>, Seq<char>>;

/// Object identifier of the common name attribute (`DnType::CommonName`).
pub open spec fn common_name_oid() -> Seq<char> {
    "2.5.4.3"@
}

/// `rcgen::DistinguishedName::new`: a distinguished name with no attributes
/// (its source builds empty entries and order).
pub assume_specification[ rcgen::DistinguishedName::new ]() -> (r: rcgen::DistinguishedName)
    ensures
        dn_entries(r).dom() == Set::<Seq<char>>::empty(),
;

/// `rcgen::DistinguishedName::push` with `DnType::CommonName` and a text:
/// its source inserts the value `DnValue::Utf8String` of the text under the
/// common name, replacing an earlier one, and leaves the other attributes.
#[verifier::external_body]
fn push_common_name(dn: &mut rcgen::DistinguishedName, common_name: &str)
    ensures
        dn_entries(*final(dn)) == dn_entries(*old(dn)).insert(common_name_oid(), common_name@),
{
    dn.push(rcgen::DnType::CommonName, common_name);
}

/// The subject of a device's CSR: the common name `common_name` and no other
/// attribute.
pub fn csr_subject(common_name: &str) -> (dn: rcgen::DistinguishedName)
    ensures
        dn_entries(dn) == map![common_name_oid() => common_name@],
{
    let mut dn = rcgen::DistinguishedName::new();
    push_common_name(&mut dn, common_name);
    assert(dn_entries(dn) =~= map![common_name_oid() => common_name@]);
    dn
}

/// The subject a `rcgen::CertificateParams` holds (its field
/// `distinguished_name`), as `dn_entries` reads it.
pub uninterp spec fn params_subject(p: rcgen::CertificateParams) -> Map<Seq<char>, Seq<char>>;

/// The subject alternative names a `rcgen::CertificateParams` holds (its
/// field `subject_alt_names`), each as text.
pub uninterp spec fn params_alt_names(p: rcgen::CertificateParams) -> Seq<Seq<char>>;

/// A key pair's public key as a CSR carries it (SubjectPublicKeyInfo DER).
pub uninterp spec fn key_public_der(k: rcgen::KeyPair) -> Seq<u8>;

/// The subject a certificate signing request carries.
pub uninterp spec fn request_subject(csr: rcgen::CertificateSigningRequest) -> Map<Seq<char>, Seq<char>>;

/// The subject alternative names a certificate signing request asks for.
pub uninterp spec fn request_alt_names(csr: rcgen::CertificateSigningRequest) -> Seq<Seq<char>>;

/// The public key a certificate signing request carries.
pub uninterp spec fn request_public_key(csr: rcgen::CertificateSigningRequest) -> Seq<u8>;

/// The public key of the key pair whose signature a certificate signing
/// request carries.
pub uninterp spec fn request_signer(csr: rcgen::CertificateSigningRequest) -> Seq<u8>;

/// The subject of the certificate signing request a PEM text encodes.
pub uninterp spec fn pem_request_subject(pem: Seq<char>) -> Map<Seq<char>, Seq<char>>;

/// The subject alternative names the request in a PEM text asks for.
pub uninterp spec fn pem_request_alt_names(pem: Seq<char>) -> Seq<Seq<char>>;

/// The public key the request in a PEM text carries.
pub uninterp spec fn pem_request_public_key(pem: Seq<char>) -> Seq<u8>;

/// The public key of the key pair whose signature the request in a PEM
/// text carries.
pub uninterp spec fn pem_request_signer(pem: Seq<char>) -> Seq<u8>;

/// `rcgen::CertificateParams::new` with no subject alternative names. Its
/// source only fails while converting a name, so with none it succeeds,
/// and the parameters hold no alternative names.
#[verifier::external_body]
fn params_without_alt_names() -> (r: Result<rcgen::CertificateParams, rcgen::Error>)
    ensures
        r is Ok,
        r matches Ok(p) ==> params_alt_names(p).len() == 0,
{
    rcgen::CertificateParams::new(Vec::<String>::new())
}

/// Assigns the public field `CertificateParams::distinguished_name`: the
/// subject becomes `dn`, the alternative names stay.
#[verifier::external_body]
fn set_subject(params: &mut rcgen::CertificateParams, dn: rcgen::DistinguishedName)
    ensures
        params_subject(*final(params)) == dn_entries(dn),
        params_alt_names(*final(params)) == params_alt_names(*old(params)),
{
    params.distinguished_name = dn;
}

/// `rcgen::CertificateParams::serialize_request`: whether it succeeds and
/// the signature bytes are left open (signing is randomized). When it
/// succeeds, its source writes the params' `distinguished_name` as the
/// subject, their alternative names (in an extension request, only when
/// there are any), `subject_key`'s public key, and signs with
/// `subject_key`.
pub assume_specification[ rcgen::CertificateParams::serialize_request ](
    params: &rcgen::CertificateParams,
    subject_key: &rcgen::KeyPair,
) -> (r: Result<rcgen::CertificateSigningRequest, rcgen::Error>)
    ensures
        r matches Ok(csr) ==> request_subject(csr) == params_subject(*params),
        r matches Ok(csr) ==> request_alt_names(csr) == params_alt_names(*params),
        r matches Ok(csr) ==> request_public_key(csr) == key_public_der(*subject_key),
        r matches Ok(csr) ==> request_signer(csr) == key_public_der(*subject_key),
;

/// PEM text of a certificate signing request: it opens with the
/// `CERTIFICATE REQUEST` begin line and closes with the matching end line
/// and a line ending (`\n`, or `\r\n` on Windows).
pub open spec fn csr_pem_armored(pem: Seq<char>) -> bool {
    let begin = "-----BEGIN CERTIFICATE REQUEST-----"@;
    let end_lf = "-----END CERTIFICATE REQUEST-----\n"@;
    let end_crlf = "-----END CERTIFICATE REQUEST-----\r\n"@;
    &&& pem.len() >= begin.len()
    &&& pem.take(begin.len() as int) == begin
    &&& {
        ||| (pem.len() >= end_lf.len() && pem.skip(pem.len() - end_lf.len()) == end_lf)
        ||| (pem.len() >= end_crlf.len() && pem.skip(pem.len() - end_crlf.len()) == end_crlf)
    }
}

/// `rcgen::CertificateSigningRequest::pem`: its source always returns `Ok`,
/// with the text `pem::encode_config` writes for the tag `CERTIFICATE
/// REQUEST`: the begin line, the base64 lines of the request's DER, the end
/// line, each closed by the configured line ending (LF, or CRLF on
/// Windows). The text encodes this very request, so it carries the same
/// subject, alternative names, public key and signer.
pub assume_specification[ rcgen::CertificateSigningRequest::pem ](
    csr: &rcgen::CertificateSigningRequest,
) -> (r: Result<String, rcgen::Error>)
    ensures
        r is Ok,
        r matches Ok(text) ==> csr_pem_armored(text@),
        r matches Ok(text) ==> pem_request_subject(text@) == request_subject(*csr),
        r matches Ok(text) ==> pem_request_alt_names(text@) == request_alt_names(*csr),
        r matches Ok(text) ==> pem_request_public_key(text@) == request_public_key(*csr),
        r matches Ok(text) ==> pem_request_signer(text@) == request_signer(*csr),
;

/// A new key pair and a PEM certificate signing request for it: its
/// subject is exactly the common name `common_name`, it asks for no
/// alternative names, and it carries and is signed with the returned key.
/// Key generation and signing draw on randomness and decide success; an
/// error comes only from one of them.
pub fn build_csr(common_name: &str) -> (r: Result<(String, rcgen::KeyPair), AdminError>)
    ensures
        r matches Ok((pem, key)) ==> {
            &&& csr_pem_armored(pem@)
            &&& pem_request_subject(pem@) == map![common_name_oid() => common_name@]
            &&& pem_request_alt_names(pem@).len() == 0
            &&& pem_request_public_key(pem@) == key_public_der(key)
            &&& pem_request_signer(pem@) == key_public_der(key)
        },
        r matches Err(e) ==> (e is KeyGeneration || e is CsrSerialization),
{
    let key = match rcgen::KeyPair::generate() {
        Ok(key) => key,
        Err(_) => return Err(AdminError::KeyGeneration),
    };
    let dn = csr_subject(common_name);
    let mut params = match params_without_alt_names() {
        Ok(params) => params,
        Err(_) => return Err(AdminError::CsrParams),
    };
    set_subject(&mut params, dn);
    let csr = match params.serialize_request(&key) {
        Ok(csr) => csr,
        Err(_) => return Err(AdminError::CsrSerialization),
    };
    match csr.pem() {
        Ok(pem) => Ok((pem, key)),
        Err(_) => Err(AdminError::CsrEncoding),
    }
}

} // verus!
