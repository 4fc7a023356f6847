//! Content hashes.

use vstd::prelude::*;

verus! {

/// The SHA-256 digest of the UTF-8 bytes of a text, in lower case hexadecimal
/// digits.
pub uninterp spec fn sha256_digits(content: Seq<char>) -> Seq<char>;

/// `sha2::Sha256` (`new`, `update`, `finalize`) over the bytes of the text,
/// with the digest formatted in lower case hexadecimal: a function of the text
/// alone.
#[verifier::external_body]
pub fn sha256_hex(content: &str) -> (r: String)
    ensures
        r@ == sha256_digits(content@),
{
    format!("{:x}", <sha2::Sha256 as sha2::Digest>::digest(content.as_bytes()))
}

} // verus!
