//! The signing key's lifetime: an Ed25519 key pair in a PKCS#8 document,
//! loaded from persisted bytes when they still parse, generated afresh
//! otherwise. The same document yields the signing and the verification
//! view. Reading and writing the key file is the application's business;
//! this module decides and derives.

use vstd::prelude::*;
use ring::signature::KeyPair;

verus! {

#[verifier::external_type_specification]
#[verifier::external_body]
pub struct ExEncodingKey(jsonwebtoken::EncodingKey);

#[verifier::external_type_specification]
#[verifier::external_body]
pub struct ExDecodingKey(jsonwebtoken::DecodingKey);

/// Whether the bytes are a PKCS#8 v2 document holding an Ed25519 key
/// pair, exactly as ring's parser accepts it.
pub uninterp spec fn valid_ed25519_pkcs8(document: Seq<u8>) -> bool;

/// Relies on ring's Ed25519KeyPair::from_pkcs8, which parses exactly the
/// valid PKCS#8 v2 Ed25519 documents, and on KeyPair::public_key for the
/// public half that the document itself determines.
#[verifier::external_body]
fn ed25519_public_key(document: &Vec<u8>) -> (r: Option<Vec<u8>>)
    ensures
        r is Some <==> valid_ed25519_pkcs8(document@),
{
    match ring::signature::Ed25519KeyPair::from_pkcs8(document) {
        Ok(key_pair) => Some(key_pair.public_key().as_ref().to_vec()),
        Err(_) => None,
    }
}

/// Relies on ring's Ed25519KeyPair::generate_pkcs8: a freshly generated
/// document is a valid PKCS#8 v2 Ed25519 document, written for
/// from_pkcs8 to consume. Generation draws on the system's randomness
/// and can fail; nothing more is assumed of the outcome.
#[verifier::external_body]
fn generate_ed25519_pkcs8() -> (r: Option<Vec<u8>>)
    ensures
        r matches Some(document) ==> valid_ed25519_pkcs8(document@),
{
    match ring::signature::Ed25519KeyPair::generate_pkcs8(&ring::rand::SystemRandom::new()) {
        Ok(document) => Some(document.as_ref().to_vec()),
        Err(_) => None,
    }
}

/// Relies on jsonwebtoken's EncodingKey::from_ed_der, which wraps the
/// PKCS#8 document bytes for later EdDSA signing.
#[verifier::external_body]
fn encoding_key_from_der(document: &Vec<u8>) -> jsonwebtoken::EncodingKey {
    jsonwebtoken::EncodingKey::from_ed_der(document)
}

/// Relies on jsonwebtoken's DecodingKey::from_ed_der, which wraps the
/// raw Ed25519 public-key bytes for later signature verification.
#[verifier::external_body]
fn decoding_key_from_der(public_key: &Vec<u8>) -> jsonwebtoken::DecodingKey {
    jsonwebtoken::DecodingKey::from_ed_der(public_key)
}

/// The key material of one process epoch: the signing half and the
/// verification half, both derived from one PKCS#8 document.
pub struct KeyMaterial {
    pub encoding_key: jsonwebtoken::EncodingKey,
    pub decoding_key: jsonwebtoken::DecodingKey,
}

impl KeyMaterial {
    /// Derive both key halves from a PKCS#8 document; succeeds exactly
    /// when the document is valid.
    pub fn from_document(document: &Vec<u8>) -> (r: Option<KeyMaterial>)
        ensures
            r is Some <==> valid_ed25519_pkcs8(document@),
    {
        match ed25519_public_key(document) {
            None => None,
            Some(public_key) => Some(
                KeyMaterial {
                    encoding_key: encoding_key_from_der(document),
                    decoding_key: decoding_key_from_der(&public_key),
                },
            ),
        }
    }
}

/// Decide the key document for this process epoch: persisted bytes are
/// used when they still parse; corrupt or absent bytes fall through to
/// fresh generation, whose result must then be persisted. Returns the
/// document and whether it is freshly generated; `None` only when
/// generation was needed and failed.
pub fn load_or_generate_keypair(loaded: Option<Vec<u8>>) -> (r: Option<(Vec<u8>, bool)>)
    ensures
        r matches Some(p) ==> valid_ed25519_pkcs8(p.0@),
        loaded matches Some(b) ==> (valid_ed25519_pkcs8(b@) ==> (r matches Some(p) && p.0@ == b@
            && p.1 == false)),
        r matches Some(p) ==> (p.1 == false ==> (loaded matches Some(b) && b@ == p.0@)),
{
    match loaded {
        Some(bytes) => {
            if ed25519_public_key(&bytes).is_some() {
                Some((bytes, false))
            } else {
                match generate_ed25519_pkcs8() {
                    Some(document) => Some((document, true)),
                    None => None,
                }
            }
        },
        None => {
            match generate_ed25519_pkcs8() {
                Some(document) => Some((document, true)),
                None => None,
            }
        },
    }
}

} // verus!
