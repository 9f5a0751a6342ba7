//! SHA-256 digests (through the `sha2` crate) and their hex text.
use vstd::prelude::*;

use crate::ids::hex_digit;
use crate::text::string_from_chars;

verus! {

/// The SHA-256 digest of a byte sequence.
pub uninterp spec fn sha256(data: Seq<u8>) -> Seq<u8>;

/// `sha2::Sha256::digest`: the 32-byte SHA-256 digest of `data`.
#[verifier::external_body]
pub(crate) fn sha256_digest(data: &[u8]) -> (d: Vec<u8>)
    ensures
        d@ == sha256(data@),
        d@.len() == 32,
{
    <sha2::Sha256 as sha2::Digest>::digest(data).to_vec()
}

/// Lower-case hex text of bytes, two digits per byte.
pub open spec fn hex_of(bytes: Seq<u8>) -> Seq<char>
    decreases bytes.len(),
{
    if bytes.len() == 0 {
        Seq::empty()
    } else {
        hex_of(bytes.drop_last()) + seq![
            hex_digit((bytes.last() / 16) as nat),
            hex_digit((bytes.last() % 16) as nat),
        ]
    }
}

fn hex_digit_exec(n: u8) -> (c: char)
    requires
        n < 16,
    ensures
        c == hex_digit(n as nat),
{
    if n < 10 {
        (n + 48) as char
    } else {
        (n + 87) as char
    }
}

/// Lower-case hex encoding of a byte slice (`{:02x}` per byte).
pub fn hash_to_hex(hash: &[u8]) -> (s: String)
    ensures
        s@ == hex_of(hash@),
{
    let mut out: Vec<char> = Vec::new();
    let mut i: usize = 0;
    while i < hash.len()
        invariant
            i <= hash.len(),
            out@ == hex_of(hash@.take(i as int)),
        decreases hash.len() - i,
    {
        let b = hash[i];
        out.push(hex_digit_exec(b / 16));
        out.push(hex_digit_exec(b % 16));
        assert(hash@.take(i + 1).drop_last() =~= hash@.take(i as int));
        assert(out@ =~= hex_of(hash@.take(i + 1)));
        i = i + 1;
    }
    assert(hash@.take(hash.len() as int) =~= hash@);
    string_from_chars(out.as_slice())
}

/// SHA-256 of a byte slice, formatted as lower-case hex.
pub fn hash_bytes(data: &[u8]) -> (s: String)
    ensures
        s@ == hex_of(sha256(data@)),
{
    let d = sha256_digest(data);
    hash_to_hex(d.as_slice())
}

} // verus!
