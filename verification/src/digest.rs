//! Sha256 and HMAC, as the transfers and the pairing use them.

use hmac::{KeyInit, Mac};
use sha2::Digest;
use vstd::prelude::*;

verus! {

/// A sha256 computation under way, from the `sha2` crate.
#[verifier::external_type_specification]
#[verifier::external_body]
pub struct ExSha256(sha2::Sha256);

/// The bytes that a hasher has been fed so far, in order.
pub uninterp spec fn absorbed(hasher: sha2::Sha256) -> Seq<u8>;

/// The sha256 of `data`.
pub uninterp spec fn sha256(data: Seq<u8>) -> Seq<u8>;

/// HMAC-SHA256 of `data` under `key`.
pub uninterp spec fn hmac_sha256(key: Seq<u8>, data: Seq<u8>) -> Seq<u8>;

/// `sha2::Sha256::new`: a hasher that has been fed nothing.
#[verifier::external_body]
pub(crate) fn hasher_new() -> (h: sha2::Sha256)
    ensures
        absorbed(h) == Seq::<u8>::empty(),
{
    sha2::Sha256::new()
}

/// `sha2::Digest::update`: feeds `data` to the hasher, after what it was fed
/// before.
#[verifier::external_body]
pub(crate) fn hasher_update(h: &mut sha2::Sha256, data: &Vec<u8>)
    ensures
        absorbed(*final(h)) == absorbed(*old(h)) + data@,
{
    h.update(data)
}

/// `sha2::Digest::finalize`, on a copy: the sha256 of everything the hasher
/// was fed.
#[verifier::external_body]
pub(crate) fn hasher_finish(h: &sha2::Sha256) -> (r: [u8; 32])
    ensures
        r@ == sha256(absorbed(*h)),
{
    h.clone().finalize().into()
}

/// `hmac::Hmac::<Sha256>`: the 32 bytes that authenticate `data` under
/// `key`. A key of any length is accepted.
#[verifier::external_body]
pub(crate) fn hmac(key: &Vec<u8>, data: &Vec<u8>) -> (r: [u8; 32])
    ensures
        r@ == hmac_sha256(key@, data@),
{
    let mut mac = hmac::Hmac::<sha2::Sha256>::new_from_slice(key).expect("any key length");
    mac.update(data);
    mac.finalize().into_bytes().into()
}

/// The sha256 of a list of bytes.
pub fn sha256_of(data: &Vec<u8>) -> (r: [u8; 32])
    ensures
        r@ == sha256(data@),
{
    let mut h = hasher_new();
    hasher_update(&mut h, data);
    assert(absorbed(h) =~= data@);
    hasher_finish(&h)
}

/// Whether two digests are equal.
pub fn same_digest(a: &[u8; 32], b: &[u8; 32]) -> (r: bool)
    ensures
        r == (a@ == b@),
{
    let mut i: usize = 0;
    while i < 32
        invariant
            i <= 32,
            forall|k: int| 0 <= k < i ==> a@[k] == b@[k],
        decreases 32 - i,
    {
        if a[i] != b[i] {
            return false;
        }
        i = i + 1;
    }
    assert(a@ =~= b@);
    true
}

/// A digest as a list of bytes.
pub fn digest_bytes(a: &[u8; 32]) -> (r: Vec<u8>)
    ensures
        r@ == a@,
{
    let mut r: Vec<u8> = Vec::new();
    let mut i: usize = 0;
    while i < 32
        invariant
            i <= 32,
            r@ == a@.take(i as int),
        decreases 32 - i,
    {
        r.push(a[i]);
        i = i + 1;
        assert(a@.take(i as int) =~= a@.take(i - 1).push(a@[i - 1]));
    }
    assert(a@.take(32) =~= a@);
    r
}

} // verus!
