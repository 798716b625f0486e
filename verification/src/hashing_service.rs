//! Content hashing: the SHA-512 digest of a file's bytes, written in
//! lower-case hexadecimal. The digest is the key by which identical content
//! is recognised.

use vstd::prelude::*;
use sha2::Digest;
use crate::text::digit;

verus! {

/// The SHA-512 digest of a byte sequence.
pub uninterp spec fn sha512(data: Seq<u8>) -> Seq<u8>;

/// The lower-case hexadecimal digit for a value below sixteen.
pub open spec fn hex_digit(n: nat) -> char {
    if n < 10 {
        digit(n)
    } else {
        (('a' as u8) + (n - 10)) as char
    }
}

/// The lower-case hexadecimal spelling of bytes: two digits for each byte,
/// the high half first.
pub open spec fn hex_encoding(data: Seq<u8>) -> Seq<char> {
    Seq::new(
        2 * data.len(),
        |i: int|
            if i % 2 == 0 {
                hex_digit(data[i / 2] as nat / 16)
            } else {
                hex_digit(data[i / 2] as nat % 16)
            },
    )
}

/// The content hash of a file with the given bytes.
pub open spec fn content_hash(contents: Seq<u8>) -> Seq<char> {
    hex_encoding(sha512(contents))
}

/// Calls `sha2::Sha512::digest`. Trusted: the result is the SHA-512 digest
/// of the input, a function of the bytes alone, and it is 64 bytes long.
#[verifier::external_body]
fn sha512_digest(data: &[u8]) -> (r: Vec<u8>)
    ensures
        r@ == sha512(data@),
        r@.len() == 64,
{
    sha2::Sha512::digest(data).to_vec()
}

/// Calls `hex::encode`. Trusted: every byte is written as two lower-case
/// hexadecimal digits, high half first, in the order of the bytes.
#[verifier::external_body]
fn hex_encode(data: &Vec<u8>) -> (r: String)
    ensures
        r@ == hex_encoding(data@),
{
    hex::encode(data)
}

/// Computes content hashes.
pub struct HashingService {}

impl HashingService {
    /// A hashing service.
    pub fn new() -> (r: Self) {
        HashingService {  }
    }

    /// The hexadecimal text of a digest.
    pub fn digest_text(&self, digest: &Vec<u8>) -> (r: String)
        ensures
            r@ == hex_encoding(digest@),
            r@.len() == 2 * digest@.len(),
    {
        hex_encode(digest)
    }

    /// The content hash of a file, given its bytes: the SHA-512 digest in
    /// lower-case hexadecimal, 128 characters long.
    pub fn hash_file_sha512(&self, contents: &[u8]) -> (r: String)
        ensures
            r@ == content_hash(contents@),
            r@.len() == 128,
    {
        let digest = sha512_digest(contents);
        self.digest_text(&digest)
    }
}

} // verus!
