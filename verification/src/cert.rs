//! The PEM files that hold the transport's self-signed certificate and key.

use vstd::prelude::*;
use pem::PemError;

verus! {

#[verifier::external_type_specification]
#[verifier::external_body]
pub struct ExPemError(PemError);

/// The DER bytes of the PEM block `pem::parse` reads from `data`, or `None`
/// where it rejects the input.
pub uninterp spec fn pem_parse_contents(data: Seq<u8>) -> Option<Seq<u8>>;

/// The text `pem::encode` writes for a block with `tag` and `contents` and
/// no headers.
pub uninterp spec fn pem_encoding(tag: Seq<char>, contents: Seq<u8>) -> Seq<char>;

/// `pem::parse`, keeping the block's contents: its result depends on `data`
/// alone, and is named by `pem_parse_contents` (which error comes out is not
/// stated).
#[verifier::external_body]
fn pem_contents(data: &[u8]) -> (r: Result<Vec<u8>, PemError>)
    ensures
        match r {
            Ok(c) => pem_parse_contents(data@) == Some(c@),
            Err(_) => pem_parse_contents(data@) is None,
        },
{
    match pem::parse(data) {
        Ok(p) => Ok(p.contents().to_vec()),
        Err(e) => Err(e),
    }
}

/// `pem::encode` of `pem::Pem::new(tag, contents)`: named by `pem_encoding`.
#[verifier::external_body]
fn pem_encode(tag: &str, contents: &[u8]) -> (r: String)
    ensures
        r@ == pem_encoding(tag@, contents@),
{
    pem::encode(&pem::Pem::new(tag, contents))
}

/// Which file of a certificate pair could not be read.
#[derive(Debug, Clone, Copy, PartialEq, Eq, Structural)]
pub enum CertPart {
    Certificate,
    PrivateKey,
}

/// The DER certificate and private key held in a pair of PEM files; the
/// first file that does not parse is reported.
pub fn decode_cert_pair(cert_pem: &[u8], key_pem: &[u8]) -> (r: Result<(Vec<u8>, Vec<u8>), CertPart>)
    ensures
        match r {
            Ok((c, k)) => pem_parse_contents(cert_pem@) == Some(c@) && pem_parse_contents(key_pem@) == Some(k@),
            Err(CertPart::Certificate) => pem_parse_contents(cert_pem@) is None,
            Err(CertPart::PrivateKey) => pem_parse_contents(cert_pem@) is Some && pem_parse_contents(key_pem@) is None,
        },
{
    let cert = match pem_contents(cert_pem) {
        Ok(c) => c,
        Err(_) => return Err(CertPart::Certificate),
    };
    let key = match pem_contents(key_pem) {
        Ok(k) => k,
        Err(_) => return Err(CertPart::PrivateKey),
    };
    Ok((cert, key))
}

/// The PEM files of a DER certificate (tag `CERTIFICATE`) and a PKCS#8
/// private key (tag `PRIVATE KEY`).
pub fn encode_cert_pair(cert_der: &[u8], key_der: &[u8]) -> (r: (String, String))
    ensures
        r.0@ == pem_encoding("CERTIFICATE"@, cert_der@),
        r.1@ == pem_encoding("PRIVATE KEY"@, key_der@),
{
    (pem_encode("CERTIFICATE", cert_der), pem_encode("PRIVATE KEY", key_der))
}

} // verus!
