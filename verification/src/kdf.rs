use hkdf::Hkdf;
use sha2::Sha256;
use vstd::prelude::*;

verus! {

/// The output of HKDF-SHA256 (RFC 5869, extract then expand) for an optional
/// salt, input key material, info string and output length.
pub uninterp spec fn hkdf_sha256(salt: Option<Seq<u8>>, ikm: Seq<u8>, info: Seq<u8>, len: nat) -> Seq<u8>;

pub open spec fn opt_bytes(s: Option<&[u8]>) -> Option<Seq<u8>> {
    match s {
        Some(b) => Some(b@),
        None => None,
    }
}

/// `Hkdf::<Sha256>::new(salt, ikm)` followed by `expand(info, okm)` into a buffer
/// of `len` bytes. `expand` fails only when `len` exceeds 255 blocks of 32 bytes,
/// which `requires` rules out; the output is the HKDF result named above, and has
/// `len` bytes.
#[verifier::external_body]
pub(crate) fn hkdf_sha256_expand(salt: Option<&[u8]>, ikm: &[u8], info: &[u8], len: usize) -> (okm: Vec<u8>)
    requires
        len <= 8160,
    ensures
        okm@ == hkdf_sha256(opt_bytes(salt), ikm@, info@, len as nat),
        okm@.len() == len,
{
    let hk = Hkdf::<Sha256>::new(salt, ikm);
    let mut okm = vec![0u8; len];
    hk.expand(info, &mut okm).expect("length within HKDF limit");
    okm
}

/// The lowercase hexadecimal digit for a value below 16.
pub open spec fn hex_digit(n: u8) -> char {
    if n < 10 {
        ((n + 48) as u8) as char
    } else {
        ((n + 87) as u8) as char
    }
}

/// Two lowercase hex digits per byte, high nibble first.
pub open spec fn hex_lower(bytes: Seq<u8>) -> Seq<char>
    decreases bytes.len(),
{
    if bytes.len() == 0 {
        Seq::empty()
    } else {
        seq![hex_digit(bytes[0] / 16), hex_digit(bytes[0] % 16)] + hex_lower(bytes.drop_first())
    }
}

/// `c` is one of the lowercase hexadecimal digits "0"-"9", "a"-"f".
pub open spec fn is_lower_hex_digit(c: char) -> bool {
    ('0' <= c && c <= '9') || ('a' <= c && c <= 'f')
}

/// The hex text of `n` bytes is `2n` lowercase hexadecimal digits.
pub proof fn lemma_hex_lower_shape(bytes: Seq<u8>)
    ensures
        hex_lower(bytes).len() == 2 * bytes.len(),
        forall|i: int| 0 <= i < hex_lower(bytes).len() ==> is_lower_hex_digit(#[trigger] hex_lower(bytes)[i]),
    decreases bytes.len(),
{
    if bytes.len() > 0 {
        lemma_hex_lower_shape(bytes.drop_first());
        let hi = bytes[0] / 16;
        let lo = bytes[0] % 16;
        assert(hi < 16 && lo < 16);
        assert(is_lower_hex_digit(hex_digit(hi)));
        assert(is_lower_hex_digit(hex_digit(lo)));
        let rest = hex_lower(bytes.drop_first());
        let all = seq![hex_digit(hi), hex_digit(lo)] + rest;
        assert forall|i: int| 0 <= i < all.len() implies is_lower_hex_digit(#[trigger] all[i]) by {
            if i >= 2 {
                assert(all[i] == rest[i - 2]);
            }
        }
    }
}

/// `hex::encode`: each byte as two lowercase hex digits, high nibble first
/// (the crate's documented and implemented behaviour).
#[verifier::external_body]
pub(crate) fn hex_encode(bytes: &[u8]) -> (s: String)
    ensures
        s@ == hex_lower(bytes@),
{
    hex::encode(bytes)
}

} // verus!
