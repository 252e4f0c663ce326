//! Checksums of downloaded files and of the catalog.

use crate::text;
use sha2::Digest;
use vstd::prelude::*;

verus! {

/// A checksum in the making: the hasher `sha2::Sha256`, whose contents are the
/// bytes that it has been fed.
#[verifier::external_body]
pub struct Checksum {
    hasher: sha2::Sha256,
}

/// The bytes that a checksum has been fed.
pub uninterp spec fn fed(c: Checksum) -> Seq<u8>;

/// The SHA-256 digest of some bytes.
pub uninterp spec fn sha256(bytes: Seq<u8>) -> Seq<u8>;

/// `sha2::Sha256::new` gives a hasher that has been fed nothing.
#[verifier::external_body]
fn new_hasher() -> (r: Checksum)
    ensures
        fed(r) == Seq::<u8>::empty(),
{
    Checksum { hasher: sha2::Sha256::new() }
}

/// `Digest::update` feeds a hasher more bytes, behind those that it has been fed.
#[verifier::external_body]
fn update_hasher(c: &mut Checksum, bytes: &[u8])
    ensures
        fed(*final(c)) == fed(*old(c)) + bytes@,
{
    c.hasher.update(bytes);
}

/// `Digest::finalize` gives the digest of all bytes that a hasher has been fed.
#[verifier::external_body]
fn finalize_hasher(c: Checksum) -> (r: Vec<u8>)
    ensures
        r@ == sha256(fed(c)),
{
    c.hasher.finalize().to_vec()
}

/// The lower-case hexadecimal digit for a number below sixteen.
pub open spec fn hex_digit(n: int) -> char {
    if n < 10 {
        (('0' as int) + n) as char
    } else {
        (('a' as int) + n - 10) as char
    }
}

/// Bytes in hexadecimal, two digits each, the high one first.
pub open spec fn hex_text(bytes: Seq<u8>) -> Seq<char> {
    Seq::new(
        2 * bytes.len(),
        |i: int|
            if i % 2 == 0 {
                hex_digit(bytes[i / 2] as int / 16)
            } else {
                hex_digit(bytes[i / 2] as int % 16)
            },
    )
}

/// `hex::encode` writes bytes in hexadecimal, two lower-case digits each.
#[verifier::external_body]
fn hex_encode(bytes: &Vec<u8>) -> (r: String)
    ensures
        r@ == hex_text(bytes@),
{
    hex::encode(bytes)
}

/// The checksum of some bytes, as it is written down.
pub open spec fn checksum_text(bytes: Seq<u8>) -> Seq<char> {
    hex_text(sha256(bytes))
}

impl Checksum {
    pub fn new() -> (r: Checksum)
        ensures
            fed(r) == Seq::<u8>::empty(),
    {
        new_hasher()
    }

    pub fn feed(&mut self, bytes: &[u8])
        ensures
            fed(*final(self)) == fed(*old(self)) + bytes@,
    {
        update_hasher(self, bytes);
    }

    /// The checksum of all that was fed.
    pub fn text(self) -> (r: String)
        ensures
            r@ == checksum_text(fed(self)),
    {
        let d: Vec<u8> = finalize_hasher(self);
        hex_encode(&d)
    }
}

/// The checksum of some bytes.
pub fn checksum_of(bytes: &[u8]) -> (r: String)
    ensures
        r@ == checksum_text(bytes@),
{
    let mut c: Checksum = Checksum::new();
    c.feed(bytes);
    assert(Seq::<u8>::empty() + bytes@ =~= bytes@);
    c.text()
}

/// The revision of a catalog: the checksum of the file that it came from.
pub fn catalog_revision(raw: &[u8]) -> (r: String)
    ensures
        r@ == checksum_text(raw@),
{
    checksum_of(raw)
}

/// Whether a checksum is the expected one; letters count alike in both cases, and
/// nothing is expected where none is pinned.
pub open spec fn is_expected(expected: Seq<char>, actual: Seq<char>) -> bool {
    expected.len() == 0 || text::alike(actual, expected)
}

pub fn checksum_is_expected(expected: &str, actual: &str) -> (r: bool)
    ensures
        r == is_expected(expected@, actual@),
{
    expected.is_empty() || text::same_ignoring_case(actual, expected)
}

/// Feeding a file in pieces gives the checksum of the whole.
pub proof fn law_checksum_of_pieces(before: Checksum, after: Checksum, head: Seq<u8>, tail: Seq<u8>)
    requires
        fed(before) == head,
        fed(after) == fed(before) + tail,
    ensures
        checksum_text(fed(after)) == checksum_text(head + tail),
{
}

/// A checksum is written as two digits for each byte, the high one first, in small
/// letters; different bytes are written differently.
pub proof fn law_hex_text(bytes: Seq<u8>, other: Seq<u8>, i: int)
    requires
        0 <= i < bytes.len(),
    ensures
        hex_text(bytes).len() == 2 * bytes.len(),
        ({
            let high = hex_text(bytes)[2 * i];
            let low = hex_text(bytes)[2 * i + 1];
            let value = |c: char|
                if 'a' <= c {
                    c as int - 'a' as int + 10
                } else {
                    c as int - '0' as int
                };
            &&& '0' <= high <= '9' || 'a' <= high <= 'f'
            &&& '0' <= low <= '9' || 'a' <= low <= 'f'
            &&& bytes[i] == 16 * value(high) + value(low)
        }),
        hex_text(bytes) == hex_text(other) ==> bytes == other,
{
    lemma_hex_at(bytes, i);
    if hex_text(bytes) == hex_text(other) {
        assert(hex_text(other).len() == 2 * other.len());
        assert forall|k: int| 0 <= k < bytes.len() implies bytes[k] == other[k] by {
            lemma_hex_at(bytes, k);
            lemma_hex_at(other, k);
        }
        assert(bytes =~= other);
    }
}

proof fn lemma_hex_at(bytes: Seq<u8>, i: int)
    requires
        0 <= i < bytes.len(),
    ensures
        hex_text(bytes)[2 * i] == hex_digit(bytes[i] as int / 16),
        hex_text(bytes)[2 * i + 1] == hex_digit(bytes[i] as int % 16),
{
    assert((2 * i) / 2 == i && (2 * i) % 2 == 0);
    assert((2 * i + 1) / 2 == i && (2 * i + 1) % 2 == 1);
}

/// A checksum that is pinned is compared whatever the case; one that is not is not.
pub proof fn law_pinned_checksum(expected: Seq<char>, actual: Seq<char>)
    ensures
        is_expected(Seq::empty(), actual),
        is_expected(actual, actual),
        expected.len() > 0 && expected.len() != actual.len() ==> !is_expected(expected, actual),
        expected.len() > 0 ==> (is_expected(expected, actual) <==> text::lower(expected)
            == text::lower(actual)),
{
    if expected.len() != actual.len() {
        assert(text::lower(expected).len() == expected.len());
        assert(text::lower(actual).len() == actual.len());
    }
}

} // verus!
