//! SHA-256 digests and their hexadecimal rendering.
use sha2::Digest;
use vstd::prelude::*;

use crate::text::{hex_string, hex_text};

verus! {

/// The SHA-256 digest of a byte sequence, as `sha2::Sha256` computes it.
pub uninterp spec fn sha256_of(data: Seq<u8>) -> Seq<u8>;

/// Computes the SHA-256 digest of `data` (`sha2::Sha256::digest`).
/// Claimed: the result is the digest of exactly these bytes, and it is
/// 32 bytes long (the output size of SHA-256 in the `sha2` crate is `U32`).
#[verifier::external_body]
pub(crate) fn sha256_digest(data: &[u8]) -> (d: Vec<u8>)
    ensures
        d@ == sha256_of(data@),
        d@.len() == 32,
{
    sha2::Sha256::digest(data).to_vec()
}

/// Whether `s` has the form of a SHA-256 digest in hexadecimal: 64
/// lower-case hexadecimal digits.
pub open spec fn is_digest_text(s: Seq<char>) -> bool {
    &&& s.len() == 64
    &&& forall|i: int| 0 <= i < s.len() ==> #[trigger] crate::text::is_lower_hex_char(s[i])
}

/// The lower-case hexadecimal SHA-256 digest of `data`.
pub open spec fn sha256_hex_text(data: Seq<u8>) -> Seq<char> {
    hex_text(sha256_of(data))
}

/// Computes the lower-case hexadecimal SHA-256 digest of `data`; it is always
/// 64 characters long.
pub fn sha256_hex(data: &[u8]) -> (s: String)
    ensures
        s@ == sha256_hex_text(data@),
        s@.len() == 64,
        vstd::utf8::encode_utf8(s@).len() == 64,
        is_digest_text(s@),
{
    let d = sha256_digest(data);
    let s = hex_string(d.as_slice());
    proof {
        crate::text::lemma_hex_text_digits(d@);
        crate::text::lemma_hex_text_len(d@);
        crate::state::lemma_hex_text_ascii(d@);
    }
    s
}

/// Appends the UTF-8 bytes of `s` to `out`.
pub fn push_str_bytes(out: &mut Vec<u8>, s: &str)
    ensures
        final(out)@ == old(out)@ + vstd::utf8::encode_utf8(s@),
{
    let b = s.as_bytes();
    let mut i: usize = 0;
    while i < b.len()
        invariant
            i <= b@.len(),
            b@ == vstd::utf8::encode_utf8(s@),
            out@ == old(out)@ + b@.take(i as int),
        decreases b@.len() - i,
    {
        out.push(b[i]);
        assert(b@.take(i as int + 1) =~= b@.take(i as int).push(b@[i as int]));
        i = i + 1;
    }
    assert(b@.take(b@.len() as int) =~= b@);
}

} // verus!
