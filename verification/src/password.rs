//! The password verifier: a deterministic, unsalted one-way digest. A
//! password's stored form is the lowercase hexadecimal text of its SHA-1
//! digest, which is what the credential store compares against.

use vstd::prelude::*;
use sha1::Digest;
use crate::codec::hex_of;
use crate::codec::hex_encode;

verus! {

/// The SHA-1 digest (20 bytes) of a byte string. Left uninterpreted: the
/// trusted wrapper below is the only thing that produces it.
pub uninterp spec fn sha1_of(data: Seq<u8>) -> Seq<u8>;

/// Relies on the sha1 crate's `Sha1` hasher (through the `Digest`
/// interface): the digest is 20 bytes and a function of the input alone.
#[verifier::external_body]
fn sha1_digest(data: &[u8]) -> (r: Vec<u8>)
    ensures
        r@ == sha1_of(data@),
        r@.len() == 20,
{
    sha1::Sha1::digest(data).to_vec()
}

/// The stored form of a password: lowercase hexadecimal of its SHA-1 digest.
pub open spec fn password_digest_of(password: Seq<u8>) -> Seq<u8> {
    hex_of(sha1_of(password))
}

/// Computes the stored form of a password.
pub fn password_digest(password: &[u8]) -> (r: Vec<u8>)
    ensures
        r@ == password_digest_of(password@),
{
    let d = sha1_digest(password);
    hex_encode(d.as_slice())
}

} // verus!
