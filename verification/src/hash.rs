//! The short digest that tells apart the temporary files of packages with
//! the same name: the first eight lower-case hex digits of the SHA-256 of
//! the package's manifest path.

use vstd::prelude::*;
use sha2::{Digest, Sha256};

verus! {

broadcast use vstd::string::group_string_axioms;

/// The SHA-256 digest of the UTF-8 encoding of `text`.
pub uninterp spec fn sha256_digest(text: Seq<char>) -> Seq<u8>;

/// `sha2::Sha256` fed the UTF-8 bytes of `text` and finalised: the digest
/// is named by `sha256_digest`; its value is not stated beyond its length,
/// the 32 bytes of SHA-256.
#[verifier::external_body]
fn sha256_of_text(text: &str) -> (r: Vec<u8>)
    ensures
        r@ == sha256_digest(text@),
        r@.len() == 32,
{
    let mut hasher = Sha256::new();
    hasher.update(text);
    hasher.finalize().to_vec()
}

/// The lower-case hex digit of `n`, below 16.
pub open spec fn hex_digit(n: u8) -> char {
    seq!['0', '1', '2', '3', '4', '5', '6', '7', '8', '9', 'a', 'b', 'c', 'd', 'e', 'f'][n as int]
}

/// `bytes` in lower-case hex, two digits a byte, as `{:x}` writes a digest.
pub open spec fn hex_of(bytes: Seq<u8>) -> Seq<char>
    decreases bytes.len(),
{
    if bytes.len() == 0 {
        Seq::<char>::empty()
    } else {
        let b = bytes.last();
        hex_of(bytes.drop_last()) + seq![hex_digit(b / 16), hex_digit(b % 16)]
    }
}

proof fn lemma_hex_len(bytes: Seq<u8>)
    ensures
        hex_of(bytes).len() == 2 * bytes.len(),
    decreases bytes.len(),
{
    if bytes.len() > 0 {
        lemma_hex_len(bytes.drop_last());
    }
}

proof fn lemma_hex_prefix(bytes: Seq<u8>, k: int)
    requires
        0 <= k <= bytes.len(),
    ensures
        hex_of(bytes.subrange(0, k)) == hex_of(bytes).subrange(0, 2 * k),
    decreases bytes.len(),
{
    lemma_hex_len(bytes);
    if k < bytes.len() {
        lemma_hex_prefix(bytes.drop_last(), k);
        assert(bytes.drop_last().subrange(0, k) =~= bytes.subrange(0, k));
        lemma_hex_len(bytes.drop_last());
        assert(hex_of(bytes.drop_last()).subrange(0, 2 * k) =~= hex_of(bytes).subrange(0, 2 * k));
    } else {
        assert(bytes.subrange(0, k) =~= bytes);
        assert(hex_of(bytes).subrange(0, 2 * k) =~= hex_of(bytes));
    }
}

/// Whether `c` is a lower-case hex digit.
pub open spec fn is_lower_hex_digit(c: char) -> bool {
    ('0' <= c && c <= '9') || ('a' <= c && c <= 'f')
}

/// Bytes in hex take two lower-case hex digits each.
pub proof fn lemma_hex_digits(bytes: Seq<u8>)
    ensures
        hex_of(bytes).len() == 2 * bytes.len(),
        forall|i: int| 0 <= i < hex_of(bytes).len() ==> is_lower_hex_digit(#[trigger] hex_of(bytes)[i]),
    decreases bytes.len(),
{
    lemma_hex_len(bytes);
    if bytes.len() > 0 {
        lemma_hex_digits(bytes.drop_last());
        let b = bytes.last();
        let digits = seq!['0', '1', '2', '3', '4', '5', '6', '7', '8', '9', 'a', 'b', 'c', 'd', 'e', 'f'];
        assert forall|n: u8| n < 16 implies is_lower_hex_digit(#[trigger] hex_digit(n)) by {
            assert(hex_digit(n) == digits[n as int]);
        }
        assert(b / 16 < 16) by (bit_vector);
        assert(b % 16 < 16) by (bit_vector);
        let r = hex_of(bytes.drop_last());
        assert forall|i: int| 0 <= i < hex_of(bytes).len() implies is_lower_hex_digit(
            #[trigger] hex_of(bytes)[i],
        ) by {
            if i < r.len() {
                assert(hex_of(bytes)[i] == r[i]);
            }
        }
    }
}

/// `bytes` in lower-case hex (see `hex_of`).
pub fn lower_hex(bytes: &[u8]) -> (r: String)
    ensures
        r@ == hex_of(bytes@),
{
    let digits: [char; 16] = ['0', '1', '2', '3', '4', '5', '6', '7', '8', '9', 'a', 'b', 'c', 'd', 'e', 'f'];
    assert(digits@ =~= seq!['0', '1', '2', '3', '4', '5', '6', '7', '8', '9', 'a', 'b', 'c', 'd', 'e', 'f']);
    let mut out: Vec<char> = Vec::new();
    let mut i: usize = 0;
    while i < bytes.len()
        invariant
            i <= bytes@.len(),
            digits@ == seq!['0', '1', '2', '3', '4', '5', '6', '7', '8', '9', 'a', 'b', 'c', 'd', 'e', 'f'],
            out@ == hex_of(bytes@.subrange(0, i as int)),
        decreases bytes@.len() - i,
    {
        let b = bytes[i];
        out.push(digits[(b / 16) as usize]);
        out.push(digits[(b % 16) as usize]);
        assert(bytes@.subrange(0, i + 1).drop_last() =~= bytes@.subrange(0, i as int));
        assert(bytes@.subrange(0, i + 1).last() == b);
        i = i + 1;
        assert(out@ =~= hex_of(bytes@.subrange(0, i as int)));
    }
    assert(bytes@.subrange(0, bytes@.len() as int) =~= bytes@);
    crate::text::string_of(out.as_slice())
}

/// The first eight hex digits of a digest of at least four bytes.
pub fn short_hex(digest: &[u8]) -> (r: String)
    requires
        digest@.len() >= 4,
    ensures
        r@ == hex_of(digest@).subrange(0, 8),
{
    proof {
        lemma_hex_prefix(digest@, 4);
    }
    let mut head: Vec<u8> = Vec::new();
    let mut i: usize = 0;
    while i < 4
        invariant
            i <= 4,
            digest@.len() >= 4,
            head@ == digest@.subrange(0, i as int),
        decreases 4 - i,
    {
        head.push(digest[i]);
        i = i + 1;
        assert(head@ =~= digest@.subrange(0, i as int));
    }
    lower_hex(head.as_slice())
}

/// The first eight lower-case hex digits of the SHA-256 of `text`.
pub fn short_hash(text: &str) -> (r: String)
    ensures
        r@ == hex_of(sha256_digest(text@)).subrange(0, 8),
{
    let digest = sha256_of_text(text);
    short_hex(digest.as_slice())
}

} // verus!
