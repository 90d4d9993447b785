//! The calls into other crates and into what is not specified of std, each
//! behind a function whose contract says what is relied on.
use crate::wire::{le_bytes, text_bytes};
use rand::{Rng, RngCore};
use sha2::Digest;
use vstd::prelude::*;

verus! {

/// What SHA-256 makes of a message.
pub uninterp spec fn sha256(message: Seq<u8>) -> Seq<u8>;

/// Calls `sha2::Sha256::digest`. Relied on: the 32 bytes are a function of the
/// message alone, the one named `sha256`.
#[verifier::external_body]
pub(crate) fn sha256_digest(message: &[u8]) -> (r: [u8; 32])
    ensures
        r@ == sha256(message@),
{
    sha2::Sha256::digest(message).into()
}

/// Calls `bincode::serialize` on a number. Relied on: its fixed-width integer
/// encoding writes the four bytes of a `u32` least significant first, which is
/// also how it writes a variant without fields; a number cannot fail to serialise.
#[verifier::external_body]
pub(crate) fn bincode_variant(tag: u32) -> (r: Vec<u8>)
    ensures
        r@ == le_bytes(tag as nat, 4),
{
    bincode::serialize(&tag).unwrap()
}

/// Calls `bincode::serialize` on a tuple of plain values. Relied on: a tuple is
/// its fields one after the other, a `u8` one byte and a byte array its bytes
/// with no length in front; none of these can fail to serialise.
#[verifier::external_body]
pub(crate) fn bincode_tagged_digest(tag: u32, version: u8, digest: &[u8; 32]) -> (r: Vec<u8>)
    ensures
        r@ == le_bytes(tag as nat, 4) + seq![version] + digest@,
{
    bincode::serialize(&(tag, version, digest)).unwrap()
}

/// Calls `bincode::serialize` on a byte array. Relied on: the array is its
/// bytes with no length in front, and cannot fail to serialise.
#[verifier::external_body]
pub(crate) fn bincode_digest(digest: &[u8; 32]) -> (r: Vec<u8>)
    ensures
        r@ == digest@,
{
    bincode::serialize(digest).unwrap()
}

/// Calls `bincode::serialize` on a tuple of plain values. Relied on: a tuple is
/// its fields one after the other, each with the fixed number of bytes of its
/// type, least significant first; none of these can fail to serialise.
#[verifier::external_body]
pub(crate) fn bincode_tagged_pair(tag: u32, a: u16, b: u16) -> (r: Vec<u8>)
    ensures
        r@ == le_bytes(tag as nat, 4) + le_bytes(a as nat, 2) + le_bytes(b as nat, 2),
{
    bincode::serialize(&(tag, a, b)).unwrap()
}

/// Calls `bincode::deserialize` for a number. Relied on: it reads back what
/// `bincode::serialize` writes for a `u32`, from the front, and leaves what
/// follows alone; it fails exactly on too few bytes.
#[verifier::external_body]
pub(crate) fn bincode_read_variant(bytes: &[u8]) -> (r: Option<u32>)
    ensures
        r is Some <==> bytes@.len() >= 4,
        r matches Some(tag) ==> le_bytes(tag as nat, 4) == bytes@.take(4),
{
    bincode::deserialize(bytes).ok()
}

/// Calls `bincode::deserialize` for a tuple of plain values. Relied on: it reads
/// back what `bincode::serialize` writes for such a tuple, from the front, and
/// leaves what follows alone; it fails exactly on too few bytes.
#[verifier::external_body]
pub(crate) fn bincode_read_tagged_digest(bytes: &[u8]) -> (r: Option<(u32, u8, [u8; 32])>)
    ensures
        r is Some <==> bytes@.len() >= 37,
        r matches Some(p) ==> le_bytes(p.0 as nat, 4) + seq![p.1] + p.2@ == bytes@.take(37),
{
    bincode::deserialize(bytes).ok()
}

/// Calls `bincode::deserialize` for a byte array. Relied on: the array is the
/// first bytes, with no length in front; it fails exactly on too few bytes.
#[verifier::external_body]
pub(crate) fn bincode_read_digest(bytes: &[u8]) -> (r: Option<[u8; 32]>)
    ensures
        r is Some <==> bytes@.len() >= 32,
        r matches Some(d) ==> d@ == bytes@.take(32),
{
    bincode::deserialize(bytes).ok()
}

/// Calls `bincode::deserialize` for a tuple of plain values. Relied on: it reads
/// back what `bincode::serialize` writes for such a tuple, from the front, and
/// leaves what follows alone; it fails exactly on too few bytes.
#[verifier::external_body]
pub(crate) fn bincode_read_tagged_pair(bytes: &[u8]) -> (r: Option<(u32, u16, u16)>)
    ensures
        r is Some <==> bytes@.len() >= 8,
        r matches Some(p) ==> le_bytes(p.0 as nat, 4) + le_bytes(p.1 as nat, 2) + le_bytes(
            p.2 as nat,
            2,
        ) == bytes@.take(8),
{
    bincode::deserialize(bytes).ok()
}

/// The lower-case hexadecimal digit of a number below sixteen.
pub open spec fn hex_digit(n: int) -> char {
    if n < 10 {
        (48 + n) as char
    } else {
        (87 + n) as char
    }
}

/// Two lower-case hexadecimal digits for each byte, the high half first.
pub open spec fn hex_chars(bytes: Seq<u8>) -> Seq<char> {
    Seq::new(
        2 * bytes.len(),
        |i: int|
            if i % 2 == 0 {
                hex_digit(bytes[i / 2] as int / 16)
            } else {
                hex_digit(bytes[i / 2] as int % 16)
            },
    )
}

/// Calls `hex::encode`. Relied on: two lower-case digits for each byte, the
/// high half first.
#[verifier::external_body]
pub(crate) fn hex_encode(bytes: &[u8]) -> (r: String)
    ensures
        r@ == hex_chars(bytes@),
{
    hex::encode(bytes)
}

/// What `String::from_utf8_lossy` makes of bytes.
pub uninterp spec fn lossy_text(bytes: Seq<u8>) -> Seq<char>;

/// Calls `String::from_utf8_lossy`. Relied on: it depends on the bytes alone,
/// and the UTF-8 bytes of a text give that text. What it puts in the place of
/// other bytes is left open.
#[verifier::external_body]
pub(crate) fn from_utf8_lossy(bytes: &[u8]) -> (r: String)
    ensures
        r@ == lossy_text(bytes@),
        forall|text: Seq<char>| #[trigger] text_bytes(text) == bytes@ ==> r@ == text,
{
    String::from_utf8_lossy(bytes).into_owned()
}

/// Calls `rand::thread_rng` and draws a `u16` from it. Nothing is known of the
/// number.
#[verifier::external_body]
pub(crate) fn random_u16() -> (r: u16)
{
    rand::thread_rng().gen()
}

/// Calls `fill_bytes` of `rand::thread_rng` on 32 bytes. Nothing is known of
/// the bytes.
#[verifier::external_body]
pub(crate) fn random_32_bytes() -> (r: [u8; 32])
{
    let mut bytes = [0u8; 32];
    rand::thread_rng().fill_bytes(&mut bytes);
    bytes
}

} // verus!
