//! The SHA-256 digest of the `sha2` crate and the hexadecimal rendering of
//! the `hex` crate, as the rest of the library sees them.

use sha2::Digest;
use vstd::prelude::*;

verus! {

/// Length in bytes of a SHA-256 digest.
pub const DIGEST_LEN: usize = 32;

/// The SHA-256 digest of `data`: what `sha2::Sha256::digest` returns for these
/// bytes. Nothing but its length is known of it here.
pub uninterp spec fn sha256_digest(data: Seq<u8>) -> Seq<u8>;

/// The lowercase hexadecimal digit for a value below sixteen.
pub open spec fn hex_digit(nibble: nat) -> char
    recommends
        nibble < 16,
{
    if nibble < 10 {
        (nibble + 48) as char
    } else {
        (nibble + 87) as char
    }
}

/// The lowercase hexadecimal rendering of a byte string: two digits for each
/// byte, the high half first.
pub open spec fn hex_string(bytes: Seq<u8>) -> Seq<char> {
    Seq::new(
        2 * bytes.len(),
        |i: int|
            if i % 2 == 0 {
                hex_digit(bytes[i / 2] as nat / 16)
            } else {
                hex_digit(bytes[i / 2] as nat % 16)
            },
    )
}

/// Distinct values below sixteen have distinct hexadecimal digits.
pub proof fn lemma_hex_digit_injective(a: nat, b: nat)
    requires
        a < 16,
        b < 16,
        hex_digit(a) == hex_digit(b),
    ensures
        a == b,
{
    assert(hex_digit(a) as nat == if a < 10 {
        a + 48
    } else {
        a + 87
    });
    assert(hex_digit(b) as nat == if b < 10 {
        b + 48
    } else {
        b + 87
    });
}

/// Distinct byte strings have distinct hexadecimal renderings.
pub proof fn lemma_hex_string_injective(a: Seq<u8>, b: Seq<u8>)
    requires
        hex_string(a) == hex_string(b),
    ensures
        a == b,
{
    assert(hex_string(a).len() == 2 * a.len());
    assert(hex_string(b).len() == 2 * b.len());
    assert forall|i: int| 0 <= i < a.len() implies a[i] == b[i] by {
        let x = a[i] as nat;
        let y = b[i] as nat;
        assert(hex_string(a)[2 * i] == hex_digit(x / 16));
        assert(hex_string(b)[2 * i] == hex_digit(y / 16));
        assert(hex_string(a)[2 * i + 1] == hex_digit(x % 16));
        assert(hex_string(b)[2 * i + 1] == hex_digit(y % 16));
        lemma_hex_digit_injective(x / 16, y / 16);
        lemma_hex_digit_injective(x % 16, y % 16);
    }
    assert(a =~= b);
}

/// Calls `sha2::Sha256::digest` on `data` and copies the output array into a
/// vector. Trusted: the result is the crate's SHA-256 of exactly these bytes,
/// and it is 32 bytes long, the output size the crate fixes for `Sha256`.
#[verifier::external_body]
pub(crate) fn sha256(data: &[u8]) -> (out: Vec<u8>)
    ensures
        out@ == sha256_digest(data@),
        out@.len() == DIGEST_LEN,
{
    sha2::Sha256::digest(data).to_vec()
}

/// Calls `hex::encode` on `data`. Trusted: the crate documents that every byte
/// becomes two lowercase hexadecimal digits, in order, which is `hex_string`.
#[verifier::external_body]
pub(crate) fn hex_encode(data: &[u8]) -> (out: String)
    ensures
        out@ == hex_string(data@),
{
    hex::encode(data)
}

} // verus!
