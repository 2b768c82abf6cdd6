//! SHA-256 digests written as lower-case hexadecimal.

use vstd::prelude::*;

use sha2::Digest;

use crate::text::push_char;

verus! {

/// The SHA-256 digest of a byte string.
pub uninterp spec fn sha256(data: Seq<u8>) -> Seq<u8>;

/// Trusted: `sha2::Sha256::new`, `update` and `finalize`; the digest is named
/// `sha256` and is 32 bytes long.
#[verifier::external_body]
fn sha256_digest(data: &[u8]) -> (d: Vec<u8>)
    ensures
        d@ == sha256(data@),
        d@.len() == 32,
{
    let mut hasher = sha2::Sha256::new();
    hasher.update(data);
    hasher.finalize().to_vec()
}

/// Lower-case hexadecimal digit for `d` (0 to 15).
pub open spec fn hex_lower_digit(d: int) -> char {
    seq!['0', '1', '2', '3', '4', '5', '6', '7', '8', '9', 'a', 'b', 'c', 'd', 'e', 'f'][d]
}

/// Bytes written as lower-case hexadecimal, two digits per byte, high
/// nibble first.
pub open spec fn hex_lower(bytes: Seq<u8>) -> Seq<char>
    decreases bytes.len(),
{
    if bytes.len() == 0 {
        Seq::empty()
    } else {
        let b: u8 = bytes.last();
        hex_lower(bytes.drop_last()) + seq![
            hex_lower_digit((b / 16) as int),
            hex_lower_digit((b % 16) as int),
        ]
    }
}

fn hex_digit(d: u8) -> (c: char)
    requires
        d < 16,
    ensures
        c == hex_lower_digit(d as int),
{
    match d {
        0 => '0',
        1 => '1',
        2 => '2',
        3 => '3',
        4 => '4',
        5 => '5',
        6 => '6',
        7 => '7',
        8 => '8',
        9 => '9',
        10 => 'a',
        11 => 'b',
        12 => 'c',
        13 => 'd',
        14 => 'e',
        _ => 'f',
    }
}

/// `bytes` in lower-case hexadecimal.
pub fn hex_encode(bytes: &[u8]) -> (s: String)
    ensures
        s@ == hex_lower(bytes@),
        s@.len() == 2 * bytes@.len(),
{
    let mut s = String::new();
    for i in 0..bytes.len()
        invariant
            s@ == hex_lower(bytes@.take(i as int)),
            s@.len() == 2 * i,
    {
        let b: u8 = bytes[i];
        push_char(&mut s, hex_digit(b / 16));
        push_char(&mut s, hex_digit(b % 16));
        assert(bytes@.take(i + 1).drop_last() =~= bytes@.take(i as int));
        assert(bytes@.take(i + 1).last() == b);
    }
    assert(bytes@.take(bytes@.len() as int) =~= bytes@);
    s
}

/// The SHA-256 digest of `data`, as 64 lower-case hexadecimal digits.
pub fn sha256_hex(data: &[u8]) -> (s: String)
    ensures
        s@ == hex_lower(sha256(data@)),
        s@.len() == 64,
{
    let d = sha256_digest(data);
    hex_encode(d.as_slice())
}

} // verus!
