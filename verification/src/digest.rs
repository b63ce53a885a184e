//! File fingerprints: the MD5 digest of a file's bytes, written in lower-case
//! hexadecimal, by which two files of one name are found to be the same.

use vstd::prelude::*;
use md5::Digest;

verus! {

/// An incremental MD5 computation over the bytes absorbed so far, holding an
/// `md5::Md5` (a type alias of a generic wrapper from the `digest` crate,
/// which is therefore kept in a field of this type).
#[verifier::external_body]
pub struct Md5Hasher {
    inner: md5::Md5,
}

/// The bytes that a hasher has absorbed, in order.
pub uninterp spec fn md5_absorbed(h: Md5Hasher) -> Seq<u8>;

/// The MD5 digest of `data` (`md5::Md5`'s `finalize` after absorbing `data`).
pub uninterp spec fn md5_digest(data: Seq<u8>) -> Seq<u8>;

/// `Md5::new()`: a hasher that has absorbed nothing.
#[verifier::external_body]
fn md5_new() -> (h: Md5Hasher)
    ensures
        md5_absorbed(h) == Seq::<u8>::empty(),
{
    Md5Hasher { inner: md5::Md5::new() }
}

/// `Md5::update`: absorbs `data` after what was absorbed before.
#[verifier::external_body]
fn md5_update(h: &mut Md5Hasher, data: &[u8])
    ensures
        md5_absorbed(*final(h)) == md5_absorbed(*old(h)) + data@,
{
    h.inner.update(data);
}

/// `Md5::finalize`: the 16-byte digest of all that was absorbed.
#[verifier::external_body]
fn md5_finalize(h: Md5Hasher) -> (d: Vec<u8>)
    ensures
        d@ == md5_digest(md5_absorbed(h)),
        d@.len() == 16,
{
    h.inner.finalize().to_vec()
}

impl Md5Hasher {
    /// A hasher that has absorbed nothing.
    pub fn new() -> (h: Md5Hasher)
        ensures
            md5_absorbed(h) == Seq::<u8>::empty(),
    {
        md5_new()
    }

    /// Absorbs `data` after what was absorbed before, so that hashing a
    /// file chunk by chunk gives the digest of all its bytes.
    pub fn update(&mut self, data: &[u8])
        ensures
            md5_absorbed(*final(self)) == md5_absorbed(*old(self)) + data@,
    {
        md5_update(self, data);
    }
}

/// The hexadecimal digit of `n < 16`, in lower case.
pub open spec fn hex_digit(n: nat) -> char {
    if n < 10 {
        (n + '0' as nat) as char
    } else {
        ((n - 10) + 'a' as nat) as char
    }
}

/// `data` in lower-case hexadecimal, two digits a byte, high half first.
pub open spec fn lower_hex(data: Seq<u8>) -> Seq<char>
    decreases data.len(),
{
    if data.len() == 0 {
        Seq::<char>::empty()
    } else {
        lower_hex(data.drop_last()) + seq![
            hex_digit(data.last() as nat / 16),
            hex_digit(data.last() as nat % 16),
        ]
    }
}

/// `hex::encode`: `data` in lower-case hexadecimal.
#[verifier::external_body]
fn hex_encode(data: &[u8]) -> (s: String)
    ensures
        s@ == lower_hex(data@),
{
    hex::encode(data)
}

/// The MD5 digest, in lower-case hexadecimal, of all that `hasher` absorbed.
pub fn md5_hex(hasher: Md5Hasher) -> (r: String)
    ensures
        r@ == lower_hex(md5_digest(md5_absorbed(hasher))),
        r@.len() == 32,
{
    let digest = md5_finalize(hasher);
    let r = hex_encode(digest.as_slice());
    proof {
        lemma_lower_hex_len(digest@);
    }
    r
}

/// Hexadecimal takes two digits a byte.
pub proof fn lemma_lower_hex_len(data: Seq<u8>)
    ensures
        lower_hex(data).len() == 2 * data.len(),
    decreases data.len(),
{
    if data.len() > 0 {
        lemma_lower_hex_len(data.drop_last());
    }
}

} // verus!
