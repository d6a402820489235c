//! Content digests: the SHA-256 hash of a node's canonical bytes, rendered as
//! `sha256:` followed by lower-case hexadecimal.

use sha2::Digest;
use sha2::Sha256;
use vstd::prelude::*;
use vstd::string::StringExecFns;
use vstd::string::StrSliceExecFns;

verus! {

/// The SHA-256 hash of `data`: the 32 bytes that `sha2` computes for it.
pub uninterp spec fn sha256_of(data: Seq<u8>) -> Seq<u8>;

/// The sixteen hexadecimal digits, in order of their value.
pub open spec fn hex_digits() -> Seq<char> {
    "0123456789abcdef"@
}

/// The two lower-case hexadecimal digits of `byte`, high nibble first.
pub open spec fn hex_of_byte(byte: u8) -> Seq<char> {
    seq![hex_digits()[byte as int / 16], hex_digits()[byte as int % 16]]
}

/// The lower-case hexadecimal rendering of `bytes`, two digits per byte.
pub open spec fn hex(bytes: Seq<u8>) -> Seq<char>
    decreases bytes.len(),
{
    if bytes.len() == 0 {
        seq![]
    } else {
        hex(bytes.drop_last()) + hex_of_byte(bytes.last())
    }
}

/// The text of the digest whose hash is `hash`.
pub open spec fn digest_text(hash: Seq<u8>) -> Seq<char> {
    "sha256:"@ + hex(hash)
}

/// The digest of a node whose canonical bytes are `bytes`.
pub open spec fn digest_of(bytes: Seq<u8>) -> Seq<char> {
    digest_text(sha256_of(bytes))
}

/// Hashes `data` by `sha2::Sha256::digest`.
///
/// Trusted: the result is a function of the bytes of `data` alone, named
/// [`sha256_of`].
#[verifier::external_body]
fn sha256(data: &[u8]) -> (hash: Vec<u8>)
    ensures
        hash@ == sha256_of(data@),
{
    Sha256::digest(data).to_vec()
}

/// Renders a hash as digest text: the algorithm's name, a colon, and the
/// hash in lower-case hexadecimal.
pub fn render_digest(hash: &[u8]) -> (digest: String)
    ensures
        digest@ == digest_text(hash@),
{
    let digits = "0123456789abcdef";
    proof {
        reveal_strlit("0123456789abcdef");
    }
    let mut digest = String::from_str("sha256:");
    let mut i: usize = 0;
    while i < hash.len()
        invariant
            i <= hash.len(),
            digits@ == hex_digits(),
            digits@.len() == 16,
            digits.is_ascii(),
            digest@ == "sha256:"@ + hex(hash@.take(i as int)),
        decreases hash.len() - i,
    {
        let byte: u8 = hash[i];
        let high: usize = (byte / 16) as usize;
        let low: usize = (byte % 16) as usize;
        digest.append(digits.substring_ascii(high, high + 1));
        digest.append(digits.substring_ascii(low, low + 1));
        proof {
            let next = hash@.take(i as int + 1);
            assert(next.drop_last() =~= hash@.take(i as int));
            assert(next.last() == byte);
            assert(digits@.subrange(high as int, high as int + 1) + digits@.subrange(
                low as int,
                low as int + 1,
            ) =~= hex_of_byte(byte));
            assert(digest@ =~= "sha256:"@ + hex(next));
        }
        i += 1;
    }
    proof {
        assert(hash@.take(i as int) =~= hash@);
    }
    digest
}

/// Computes the digest of a node from its canonical bytes.
pub fn get_digest(bytes: &[u8]) -> (digest: String)
    ensures
        digest@ == digest_of(bytes@),
{
    let hash = sha256(bytes);
    render_digest(hash.as_slice())
}

} // verus!
