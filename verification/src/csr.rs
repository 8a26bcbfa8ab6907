//! Key pairs and certificate signing requests, which `rcgen` makes.

use vstd::prelude::*;
use vstd::string::to_string_from_display_ensures;

verus! {

/// `rcgen`'s report of what went wrong.
#[verifier::external_type_specification]
#[verifier::external_body]
pub struct ExRcgenError(rcgen::Error);

/// The subject of a certificate signing request in PEM: the object identifier and the text of
/// each of its attributes.
pub uninterp spec fn request_subject(csr_pem: Seq<char>) -> Seq<(Seq<u64>, Seq<char>)>;

/// The public key in a certificate signing request in PEM.
pub uninterp spec fn request_public_key(csr_pem: Seq<char>) -> Seq<u8>;

/// Whether the signature of a certificate signing request in PEM verifies under a public key.
pub uninterp spec fn request_verifies(csr_pem: Seq<char>, public_key: Seq<u8>) -> bool;

/// The public half of a private key in PEM.
pub uninterp spec fn public_half(key_pem: Seq<char>) -> Seq<u8>;

/// The object identifier of a common name.
pub open spec fn common_name_oid() -> Seq<u64> {
    seq![2, 5, 4, 3]
}

/// The characters of Base64, padding among them.
pub open spec fn base64_char(c: char) -> bool {
    let n = c as u32;
    ||| 0x41 <= n <= 0x5a
    ||| 0x61 <= n <= 0x7a
    ||| 0x30 <= n <= 0x39
    ||| c == '+'
    ||| c == '/'
    ||| c == '='
}

/// A text in PEM with the given label and line end: Base64 in lines between two boundaries.
pub open spec fn pem_lines(text: Seq<char>, label: Seq<char>, end: Seq<char>) -> bool {
    exists|body: Seq<char>|
        text == "-----BEGIN "@ + label + "-----"@ + end + body + "-----END "@ + label + "-----"@
            + end && #[trigger] base64_lines(body)
}

/// Whether a text is more than nothing, all of it Base64 and line ends.
pub open spec fn base64_lines(body: Seq<char>) -> bool {
    &&& body.len() > 0
    &&& forall|i: int|
        0 <= i < body.len() ==> base64_char(#[trigger] body[i]) || body[i] == '\r' || body[i]
            == '\n'
}

/// A text in PEM with the given label, its lines ended in either of the usual ways.
pub open spec fn in_pem(text: Seq<char>, label: Seq<char>) -> bool {
    pem_lines(text, label, "\n"@) || pem_lines(text, label, "\r\n"@)
}

/// Whether a text is a private key in PEM and another a request for a certificate of it in
/// PEM: the subject is the common name alone, the public key is that of the private key, and
/// the signature is by the private key.
pub open spec fn requests(key_pem: Seq<char>, csr_pem: Seq<char>, common_name: Seq<char>) -> bool {
    &&& in_pem(key_pem, "PRIVATE KEY"@)
    &&& in_pem(csr_pem, "CERTIFICATE REQUEST"@)
    &&& request_subject(csr_pem) == seq![(common_name_oid(), common_name)]
    &&& request_public_key(csr_pem) == public_half(key_pem)
    &&& request_verifies(csr_pem, public_half(key_pem))
}

/// Calls `rcgen::KeyPair::generate`, and with the new key
/// `rcgen::CertificateParams::serialize_request` on parameters whose subject is the common
/// name alone; hands out both in PEM, through `KeyPair::serialize_pem` and
/// `CertificateSigningRequest::pem`.  The key is random and so is the signature, so of a
/// success it is stated only that both texts are PEM, that the subject of the request is that
/// common name and nothing else, and that the request is for that key and signed by it; when
/// `rcgen` fails is not stated.
#[verifier::external_body]
fn request_certificate(common_name: &str) -> (result: Result<(String, String), rcgen::Error>)
    ensures
        result matches Ok((key_pem, csr_pem)) ==> in_pem(key_pem@, "PRIVATE KEY"@) && in_pem(
            csr_pem@,
            "CERTIFICATE REQUEST"@,
        ) && request_subject(csr_pem@) == seq![(common_name_oid(), common_name@)]
            && request_public_key(csr_pem@) == public_half(key_pem@) && request_verifies(
            csr_pem@,
            public_half(key_pem@),
        ),
{
    let key_pair = rcgen::KeyPair::generate()?;
    let mut params = rcgen::CertificateParams::default();
    params.distinguished_name = rcgen::DistinguishedName::new();
    params.distinguished_name.push(rcgen::DnType::CommonName, common_name);
    let csr = params.serialize_request(&key_pair)?;
    Ok((key_pair.serialize_pem(), csr.pem()?))
}

/// What generating a key and a request for it may come to: a private key and a request for
/// it in the name of `juno`, or `rcgen`'s word on why not.
pub open spec fn csr_outcome(outcome: Result<(Seq<char>, Seq<char>), Seq<char>>) -> bool {
    match outcome {
        Ok((key_pem, csr_pem)) => requests(key_pem, csr_pem, "juno"@),
        Err(text) => exists|error: rcgen::Error, message: String|
            message@ == text && #[trigger] to_string_from_display_ensures(&error, message),
    }
}

/// The texts in an outcome.
pub open spec fn outcome_view(outcome: Result<(String, String), String>) -> Result<
    (Seq<char>, Seq<char>),
    Seq<char>,
> {
    match outcome {
        Ok((key_pem, csr_pem)) => Ok((key_pem@, csr_pem@)),
        Err(text) => Err(text@),
    }
}

/// Generates a key for this installation and a request for a certificate of it: the private
/// key and the request, both in PEM.
pub fn generate_csr() -> (outcome: Result<(String, String), String>)
    ensures
        csr_outcome(outcome_view(outcome)),
{
    match request_certificate("juno") {
        Ok(pair) => Ok(pair),
        Err(error) => Err(error.to_string()),
    }
}

} // verus!
