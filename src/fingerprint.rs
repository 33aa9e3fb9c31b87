use vstd::prelude::*;

use crate::json::hex_digit;

verus! {

/// The largest input, in bytes, that the digest accepts (2^61 - 1): its length in bits must fit in 64 bits.
pub const MAX_DIGEST_INPUT: u64 = 0x1fff_ffff_ffff_ffff;

/// The SHA-256 digest of `data`.
pub uninterp spec fn sha256_of(data: Seq<u8>) -> Seq<u8>;

/// Relies on ring::digest::digest with ring::digest::SHA256: the 32-byte SHA-256 digest.
/// It panics only on inputs of 2^61 bytes or more, which `requires` leaves out.
#[verifier::external_body]
fn sha256(data: &[u8]) -> (r: Vec<u8>)
    requires
        data@.len() <= MAX_DIGEST_INPUT as int,
    ensures
        r@ == sha256_of(data@),
        r@.len() == 32,
{
    ring::digest::digest(&ring::digest::SHA256, data).as_ref().to_vec()
}

/// Lowercase hexadecimal: two digits per byte, the high nibble first.
pub open spec fn hex_of(b: Seq<u8>) -> Seq<char>
    decreases b.len(),
{
    if b.len() == 0 {
        Seq::empty()
    } else {
        hex_of(b.drop_last()) + seq![hex_digit(b.last() as int / 16), hex_digit(b.last() as int % 16)]
    }
}

/// Relies on data_encoding::HEXLOWER.encode: lowercase hexadecimal, two digits per byte,
/// the high nibble first.
#[verifier::external_body]
fn hex_lower(b: &[u8]) -> (r: String)
    ensures
        r@ == hex_of(b@),
{
    data_encoding::HEXLOWER.encode(b)
}

/// The fingerprint of some content: the first 128 bits of its SHA-256 digest,
/// in lowercase hexadecimal.
pub open spec fn fingerprint_of(content: Seq<u8>) -> Seq<char> {
    hex_of(sha256_of(content).take(16))
}

pub proof fn lemma_hex_len(b: Seq<u8>)
    ensures
        hex_of(b).len() == 2 * b.len(),
    decreases b.len(),
{
    if b.len() > 0 {
        lemma_hex_len(b.drop_last());
    }
}

/// The hexadecimal of a prefix is the matching prefix of the hexadecimal.
pub proof fn lemma_hex_prefix(b: Seq<u8>, k: int)
    requires
        0 <= k <= b.len(),
    ensures
        hex_of(b.take(k)) == hex_of(b).take(2 * k),
    decreases b.len(),
{
    lemma_hex_len(b);
    if k == b.len() {
        assert(b.take(k) =~= b);
        assert(hex_of(b).take(2 * k) =~= hex_of(b));
    } else {
        lemma_hex_prefix(b.drop_last(), k);
        assert(b.drop_last().take(k) =~= b.take(k));
        lemma_hex_len(b.drop_last());
        assert(hex_of(b).take(2 * k) =~= hex_of(b.drop_last()).take(2 * k));
    }
}

/// The fingerprint is 32 lowercase hexadecimal characters: the first 32 of the
/// hexadecimal form of the full digest.
pub proof fn lemma_fingerprint_shape(content: Seq<u8>)
    requires
        sha256_of(content).len() == 32,
    ensures
        fingerprint_of(content).len() == 32,
        fingerprint_of(content) == hex_of(sha256_of(content)).take(32),
{
    lemma_hex_prefix(sha256_of(content), 16);
    lemma_hex_len(sha256_of(content).take(16));
}

/// The fingerprint of `content`: SHA-256, truncated to its first 16 bytes, in lowercase hex.
pub fn fingerprint(content: &[u8]) -> (r: String)
    requires
        content@.len() <= MAX_DIGEST_INPUT as int,
    ensures
        r@ == fingerprint_of(content@),
        r@.len() == 32,
{
    let digest = sha256(content);
    let mut head: Vec<u8> = Vec::new();
    let mut i: usize = 0;
    while i < 16
        invariant
            i <= 16,
            digest@.len() == 32,
            head@ == digest@.take(i as int),
        decreases 16 - i,
    {
        head.push(digest[i]);
        i = i + 1;
        assert(head@ =~= digest@.take(i as int));
    }
    let r = hex_lower(head.as_slice());
    proof {
        lemma_fingerprint_shape(content@);
    }
    r
}

/// The same content always gets the same fingerprint, and two fingerprints differ
/// only where the contents differ.
pub proof fn lemma_fingerprint_deterministic(a: Seq<u8>, b: Seq<u8>)
    ensures
        a == b ==> fingerprint_of(a) == fingerprint_of(b),
        fingerprint_of(a) != fingerprint_of(b) ==> a != b,
{
}

} // verus!
