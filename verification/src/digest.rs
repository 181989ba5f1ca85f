//! Fingerprints of files.

use crate::text;
use vstd::prelude::*;

verus! {

/// What `sha2::Sha512` makes of some bytes.
pub uninterp spec fn sha512(data: Seq<u8>) -> Seq<u8>;

/// `sha2::Digest::digest` of `sha2::Sha512`: the digest depends on the bytes alone and has 64
/// bytes.
#[verifier::external_body]
fn sha512_digest(data: &Vec<u8>) -> (r: Vec<u8>)
    ensures
        r@ == sha512(data@),
        r@.len() == 64,
{
    <sha2::Sha512 as sha2::Digest>::digest(data).to_vec()
}

/// A digit of base sixteen, in lower case.
pub open spec fn hex_digit(n: int) -> char {
    if n < 10 {
        (48 + n) as char
    } else {
        (87 + n) as char
    }
}

/// Bytes in base sixteen, two digits for each.
pub open spec fn hex_text(data: Seq<u8>) -> Seq<char> {
    Seq::new(
        2 * data.len(),
        |i: int|
            hex_digit(
                if i % 2 == 0 {
                    data[i / 2] as int / 16
                } else {
                    data[i / 2] as int % 16
                },
            ),
    )
}

/// `hex::encode`: two digits for each byte, the high one first, in lower case.
#[verifier::external_body]
fn hex_encode(data: &Vec<u8>) -> (r: String)
    ensures
        r@ == hex_text(data@),
{
    hex::encode(data)
}

/// The fingerprint of a file.
pub open spec fn fingerprint_of(data: Seq<u8>) -> Seq<char> {
    hex_text(sha512(data))
}

/// The fingerprint of a file.
pub fn fingerprint(data: &Vec<u8>) -> (r: String)
    ensures
        r@ == fingerprint_of(data@),
        r@.len() == 128,
{
    let d = sha512_digest(data);
    hex_encode(&d)
}

/// `SHA512 mismatch for <filename>: file may be corrupted`.
pub open spec fn mismatch_message(filename: Seq<char>) -> Seq<char> {
    "SHA512 mismatch for "@ + filename + ": file may be corrupted"@
}

/// Compares a fingerprint that was computed with the one that is expected of a file.
pub fn accept_fingerprint(actual: &str, expected: &str, filename: &str) -> (r: Result<(), String>)
    ensures
        match r {
            Ok(_) => actual@ == expected@,
            Err(e) => actual@ != expected@ && e@ == mismatch_message(filename@),
        },
{
    if text::same(actual, expected) {
        Ok(())
    } else {
        let mut m = "SHA512 mismatch for ".to_string();
        m.append(filename);
        m.append(": file may be corrupted");
        Err(m)
    }
}

/// Compares the fingerprint of a download with the one that is expected of it.
pub fn verify_download(data: &Vec<u8>, expected: &str, filename: &str) -> (r: Result<
    String,
    String,
>)
    ensures
        match r {
            Ok(h) => h@ == fingerprint_of(data@) && h@ == expected@,
            Err(e) => fingerprint_of(data@) != expected@ && e@ == mismatch_message(filename@),
        },
{
    let actual = fingerprint(data);
    match accept_fingerprint(actual.as_str(), expected, filename) {
        Ok(_) => Ok(actual),
        Err(e) => Err(e),
    }
}

/// Two bytes that differ have different digits.
proof fn lemma_hex_byte(a: u8, b: u8)
    requires
        hex_digit(a as int / 16) == hex_digit(b as int / 16),
        hex_digit(a as int % 16) == hex_digit(b as int % 16),
    ensures
        a == b,
{
}

/// A fingerprint in base sixteen tells the digest: digests that differ are written differently.
pub proof fn law_hex_text_tells_the_bytes(a: Seq<u8>, b: Seq<u8>)
    requires
        hex_text(a) == hex_text(b),
    ensures
        a == b,
{
    assert(hex_text(a).len() == 2 * a.len());
    assert(hex_text(b).len() == 2 * b.len());
    assert forall|i: int| 0 <= i < a.len() implies a[i] == b[i] by {
        let hi = 2 * i;
        let lo = 2 * i + 1;
        assert(hi / 2 == i && hi % 2 == 0 && lo / 2 == i && lo % 2 == 1);
        assert(hex_text(a)[hi] == hex_digit(a[i] as int / 16));
        assert(hex_text(b)[hi] == hex_digit(b[i] as int / 16));
        assert(hex_text(a)[lo] == hex_digit(a[i] as int % 16));
        assert(hex_text(b)[lo] == hex_digit(b[i] as int % 16));
        lemma_hex_byte(a[i], b[i]);
    }
    assert(a =~= b);
}

} // verus!
