//! The cryptographic boundary: secp256k1 keys and ECDSA signatures, SHA-256
//! digests.
//!
//! What the curve library computes is named, not restated: `pubkey_of`,
//! `sha256_of` and `ecdsa_verifies` stand for results that are functions of
//! their arguments alone, and every contract in the library speaks of those
//! names.  The wrappers here are the only places the outside calls happen.

use sha2::Digest;
use vstd::prelude::*;

verus! {

/// Whether `b` is a byte string that secp256k1 accepts as a secret key:
/// thirty-two bytes forming a nonzero scalar below the curve order.
pub uninterp spec fn is_valid_seckey(b: Seq<u8>) -> bool;

/// The compressed (33-byte) encoding of the public key that secp256k1
/// derives from the secret key bytes `sk`.
pub uninterp spec fn pubkey_of(sk: Seq<u8>) -> Seq<u8>;

/// Whether `b` parses as a structurally valid secp256k1 public-key encoding.
pub uninterp spec fn is_valid_pubkey(b: Seq<u8>) -> bool;

/// The SHA-256 digest of the UTF-8 bytes of the text `s`.
pub uninterp spec fn sha256_of(s: Seq<char>) -> Seq<u8>;

/// Whether secp256k1's ECDSA verification accepts the compact signature
/// `sig` over the 32-byte digest `digest` under the public-key encoding
/// `pk`.  False whenever `sig` or `pk` does not parse.
pub uninterp spec fn ecdsa_verifies(sig: Seq<u8>, digest: Seq<u8>, pk: Seq<u8>) -> bool;

/// Relies on secp256k1's `generate_keypair`: draws a fresh secret key from a
/// cryptographically secure source, retrying until the bytes form a valid
/// scalar, and derives its public key (`PublicKey::from_secret_key`, here in
/// its compressed `serialize` form, which `PublicKey::from_slice` accepts
/// back).
#[verifier::external_body]
pub(crate) fn generate_keypair_bytes() -> (r: (Vec<u8>, Vec<u8>))
    ensures
        r.0@.len() == 32,
        is_valid_seckey(r.0@),
        r.1@ == pubkey_of(r.0@),
        r.1@.len() == 33,
        is_valid_pubkey(r.1@),
{
    let secp = secp256k1::Secp256k1::new();
    let (secret_key, public_key) = secp.generate_keypair(&mut rand::thread_rng());
    (secret_key.secret_bytes().to_vec(), public_key.serialize().to_vec())
}

/// Relies on secp256k1's `PublicKey::from_slice`: accepts exactly the
/// structurally valid public-key encodings.
#[verifier::external_body]
pub(crate) fn pubkey_bytes_valid(b: &Vec<u8>) -> (r: bool)
    ensures
        r == is_valid_pubkey(b@),
{
    secp256k1::PublicKey::from_slice(b.as_slice()).is_ok()
}

/// Relies on secp256k1's `sign_ecdsa` over a 32-byte digest: succeeds for
/// exactly the valid secret keys (`SecretKey::from_slice`), and its compact
/// 64-byte signature verifies under the signer's public key
/// (`verify_ecdsa`).
#[verifier::external_body]
pub(crate) fn sign_digest(digest: &Vec<u8>, sk: &Vec<u8>) -> (r: Option<Vec<u8>>)
    requires
        digest@.len() == 32,
    ensures
        r is Some <==> is_valid_seckey(sk@),
        r is Some ==> r->0@.len() == 64,
        r is Some ==> ecdsa_verifies(r->0@, digest@, pubkey_of(sk@)),
{
    let secret_key = match secp256k1::SecretKey::from_slice(sk.as_slice()) {
        Ok(k) => k,
        Err(_) => return None,
    };
    let msg = match secp256k1::Message::from_digest_slice(digest.as_slice()) {
        Ok(m) => m,
        Err(_) => return None,
    };
    let secp = secp256k1::Secp256k1::new();
    let sig = secp.sign_ecdsa(&msg, &secret_key);
    Some(sig.serialize_compact().to_vec())
}

/// Relies on secp256k1's `verify_ecdsa`: parses the compact signature, the
/// digest and the public-key encoding and checks the signature; any parse
/// failure is a verification failure.
#[verifier::external_body]
pub(crate) fn verify_digest_signature(sig: &Vec<u8>, digest: &Vec<u8>, pk: &Vec<u8>) -> (r: bool)
    ensures
        r == ecdsa_verifies(sig@, digest@, pk@),
{
    let sig = match secp256k1::ecdsa::Signature::from_compact(sig.as_slice()) {
        Ok(s) => s,
        Err(_) => return false,
    };
    let msg = match secp256k1::Message::from_digest_slice(digest.as_slice()) {
        Ok(m) => m,
        Err(_) => return false,
    };
    let pk = match secp256k1::PublicKey::from_slice(pk.as_slice()) {
        Ok(p) => p,
        Err(_) => return false,
    };
    let secp = secp256k1::Secp256k1::verification_only();
    secp.verify_ecdsa(&msg, &sig, &pk).is_ok()
}

/// Relies on sha2's `Sha256`: a 256-bit digest of the UTF-8 bytes of `s`,
/// depending on those bytes alone.
#[verifier::external_body]
pub(crate) fn sha256_text(s: &str) -> (r: Vec<u8>)
    ensures
        r@ == sha256_of(s@),
        r@.len() == 32,
{
    sha2::Sha256::digest(s.as_bytes()).to_vec()
}

} // verus!
