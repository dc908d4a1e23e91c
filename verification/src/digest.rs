//! SHA-256 digests and their lowercase hex form.
use vstd::prelude::*;
use sha2::Digest;

verus! {

/// The SHA-256 digest of `data`, as `sha2::Sha256::digest` computes it.
pub uninterp spec fn sha256_of(data: Seq<u8>) -> Seq<u8>;

/// Calls `sha2::Sha256::digest` and copies out the digest: 32 bytes that
/// depend on the data alone (the bytes themselves are left to the name).
#[verifier::external_body]
pub(crate) fn sha256(data: &[u8]) -> (r: Vec<u8>)
    ensures
        r@ == sha256_of(data@),
        r@.len() == 32,
{
    sha2::Sha256::digest(data).to_vec()
}

/// The lowercase hex digit of `d < 16`.
pub open spec fn hex_digit(d: int) -> char {
    if d < 10 { ('0' as int + d) as char } else { ('a' as int + d - 10) as char }
}

/// Lowercase hex of bytes: two digits per byte, high nibble first.
pub open spec fn spec_hex(data: Seq<u8>) -> Seq<char>
    decreases data.len(),
{
    if data.len() == 0 {
        Seq::empty()
    } else {
        spec_hex(data.drop_last()) + seq![hex_digit(data.last() as int / 16), hex_digit(data.last() as int % 16)]
    }
}

/// Calls `hex::encode`: lowercase hex, two digits per byte, as the crate
/// documents it.
#[verifier::external_body]
pub(crate) fn hex_encode(data: &[u8]) -> (r: String)
    ensures
        r@ == spec_hex(data@),
{
    hex::encode(data)
}

/// The lowercase hex SHA-256 of `data`.
pub open spec fn spec_sha256_hex(data: Seq<u8>) -> Seq<char> {
    spec_hex(sha256_of(data))
}

/// Hash `data` with SHA-256 and write the digest in lowercase hex.
pub fn sha256_hex(data: &[u8]) -> (r: String)
    ensures
        r@ == spec_sha256_hex(data@),
        r@.len() == 64,
{
    let d = sha256(data);
    proof { lemma_hex_len(d@); }
    hex_encode(d.as_slice())
}

proof fn lemma_hex_len(data: Seq<u8>)
    ensures
        spec_hex(data).len() == 2 * data.len(),
    decreases data.len(),
{
    if data.len() > 0 {
        lemma_hex_len(data.drop_last());
    }
}

} // verus!
