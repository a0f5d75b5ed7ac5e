//! Public keys and signatures. Both are left to OpenSSL; what it returns is known here
//! by name only. The answers are those of the OpenSSL that the program is built with:
//! which kinds of key it reads, and which signatures it knows.

use openssl::hash::MessageDigest;
use openssl::pkey::PKey;
use openssl::sign::Verifier;
use vstd::prelude::*;

verus! {

/// The longest input that OpenSSL takes for a PEM document, in bytes.
pub const MAX_PEM_LEN: usize = 0x7fff_ffff;

/// Whether OpenSSL reads `pem` as a PEM-encoded public key, with the empty passphrase
/// where `pem` announces that it is encrypted. The answer is that of the OpenSSL that
/// the program is built with.
pub uninterp spec fn pem_is_public_key(pem: Seq<u8>) -> bool;

/// Whether OpenSSL, with the public key that it reads from `pem` (with the empty
/// passphrase where `pem` announces that it is encrypted), accepts `signature` as a
/// signature over the SHA-256 digest of `data`. The answer is that of the OpenSSL that
/// the program is built with.
pub uninterp spec fn signature_valid(pem: Seq<u8>, data: Seq<u8>, signature: Seq<u8>) -> bool;

/// Calls `PKey::public_key_from_pem_passphrase` with the empty passphrase and tells
/// whether it returned a key. With a passphrase in hand OpenSSL never asks the terminal
/// for one, whatever the bytes announce. Trusted: the answer is a function of the bytes
/// alone, called `pem_is_public_key` here. Longer inputs than `MAX_PEM_LEN` are left
/// out, because OpenSSL's binding stops the program on them.
#[verifier::external_body]
pub(crate) fn reads_as_public_key(pem: &[u8]) -> (ok: bool)
    requires
        pem@.len() <= MAX_PEM_LEN,
    ensures
        ok == pem_is_public_key(pem@),
{
    PKey::public_key_from_pem_passphrase(pem, b"").is_ok()
}

/// Reads the key with `PKey::public_key_from_pem_passphrase` and the empty passphrase,
/// so that OpenSSL never asks the terminal for one, makes a `Verifier` for SHA-256 with
/// `Verifier::new`, feeds it `data` with `Verifier::update` and asks `Verifier::verify`
/// about `signature`. Any failure on the way counts as a rejection. Trusted: the answer
/// is a function of the three byte strings alone, called `signature_valid` here.
#[verifier::external_body]
pub(crate) fn accepts_sha256_signature(pem: &[u8], data: &[u8], signature: &[u8]) -> (ok: bool)
    requires
        pem@.len() <= MAX_PEM_LEN,
    ensures
        ok == signature_valid(pem@, data@, signature@),
{
    let Ok(key) = PKey::public_key_from_pem_passphrase(pem, b"") else { return false };
    let Ok(mut verifier) = Verifier::new(MessageDigest::sha256(), &key) else { return false };
    let Ok(()) = verifier.update(data) else { return false };
    match verifier.verify(signature) {
        Ok(valid) => valid,
        Err(_) => false,
    }
}

} // verus!
