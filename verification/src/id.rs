//! Identifiers made of UUIDs.

use uuid::Uuid;
use vstd::prelude::*;

verus! {

/// The lowercase hexadecimal digit of `d` (below 16).
pub open spec fn hex_digit(d: int) -> char {
    if d < 10 {
        ('0' as int + d) as char
    } else {
        ('a' as int + d - 10) as char
    }
}

/// The `n` lowest hexadecimal digits of `v`, the most significant first.
pub open spec fn hex_digits(v: nat, n: nat) -> Seq<char>
    decreases n,
{
    if n == 0 {
        Seq::empty()
    } else {
        hex_digits(v / 16, (n - 1) as nat).push(hex_digit((v % 16) as int))
    }
}

/// The hyphenated text of a UUID: 32 lowercase hexadecimal digits in groups of 8, 4, 4, 4
/// and 12, joined by `-`.
pub open spec fn hyphenated(id: u128) -> Seq<char> {
    let h = hex_digits(id as nat, 32);
    h.subrange(0, 8) + "-"@ + h.subrange(8, 12) + "-"@ + h.subrange(12, 16) + "-"@
        + h.subrange(16, 20) + "-"@ + h.subrange(20, 32)
}

/// The number whose big-endian bytes are `b`.
pub open spec fn big_endian(b: Seq<u8>) -> nat
    decreases b.len(),
{
    if b.len() == 0 {
        0
    } else {
        big_endian(b.drop_last()) * 256 + b.last() as nat
    }
}

/// The UUID that `uuid::Uuid::parse_str` reads from a text, or `None` where it rejects it.
pub uninterp spec fn uuid_parse(text: Seq<char>) -> Option<u128>;

/// A version-4 UUID of the RFC variant: version bits (76 to 79) are 4, variant bits (62 and 63)
/// are `10`.
pub open spec fn is_random_uuid(id: u128) -> bool {
    (id >> 76u128) & 0xfu128 == 4u128 && (id >> 62u128) & 0x3u128 == 2u128
}

/// `uuid::Uuid::new_v4`: a random UUID, as its 128 bits. Its other bits are random; its version
/// and variant bits are those of a random UUID.
#[verifier::external_body]
pub(crate) fn random_id() -> (r: u128)
    ensures
        is_random_uuid(r),
{
    Uuid::new_v4().as_u128()
}

/// `uuid::Uuid::parse_str`, as the 128 bits of the UUID; it reads the hyphenated text that
/// this crate writes back to the same UUID.
#[verifier::external_body]
pub(crate) fn parse_id(text: &str) -> (r: Option<u128>)
    ensures
        r == uuid_parse(text@),
        forall|x: u128| text@ == hyphenated(x) ==> r == Some(x),
{
    match Uuid::parse_str(text) {
        Ok(u) => Some(u.as_u128()),
        Err(_) => None,
    }
}

/// `uuid::Uuid::from_slice`, as the 128 bits of the UUID: it takes exactly 16 bytes, the most
/// significant first.
#[verifier::external_body]
pub(crate) fn id_from_slice(bytes: &[u8]) -> (r: Option<u128>)
    ensures
        r is Some <==> bytes@.len() == 16,
        r matches Some(v) ==> v == big_endian(bytes@),
{
    match Uuid::from_slice(bytes) {
        Ok(u) => Some(u.as_u128()),
        Err(_) => None,
    }
}

/// `Display` of `uuid::Uuid`: its hyphenated lowercase text.
#[verifier::external_body]
pub(crate) fn format_id(id: u128) -> (r: String)
    ensures
        r@ == hyphenated(id),
{
    Uuid::from_u128(id).to_string()
}

/// `uuid::fmt::Hyphenated::encode_lower`: writes the hyphenated lowercase text of the UUID into
/// the first 36 bytes of `buffer` and returns that text; the other bytes are not written. It
/// panics on a buffer shorter than 36 bytes.
#[verifier::external_body]
pub(crate) fn encode_id<'buf>(id: u128, buffer: &'buf mut [u8]) -> (r: &'buf str)
    requires
        old(buffer)@.len() >= 36,
    ensures
        r@ == hyphenated(id),
        final(buffer)@.len() == old(buffer)@.len(),
        forall|i: int| 0 <= i < 36 ==> final(buffer)@[i] == hyphenated(id)[i] as u8,
        forall|i: int| 36 <= i < old(buffer)@.len() ==> final(buffer)@[i] == old(buffer)@[i],
{
    Uuid::from_u128(id).as_hyphenated().encode_lower(buffer)
}

} // verus!
