//! Texts of integers and of byte strings.

use vstd::prelude::*;

verus! {

/// The ASCII digit of `d` (below ten).
pub open spec fn digit_char(d: nat) -> char {
    ('0' as nat + d) as char
}

/// The decimal digits of `n`, without leading zeros (`0` for zero).
pub open spec fn decimal_digits(n: nat) -> Seq<char>
    decreases n,
{
    if n < 10 {
        seq![digit_char(n)]
    } else {
        decimal_digits(n / 10).push(digit_char(n % 10))
    }
}

/// The decimal text of `v`, with a `-` before a negative number.
pub open spec fn decimal_text(v: int) -> Seq<char> {
    if v < 0 {
        seq!['-'] + decimal_digits((-v) as nat)
    } else {
        decimal_digits(v as nat)
    }
}

/// `itoa::Buffer::format` on an `i64`: its decimal text, with `-` before a negative number.
#[verifier::external_body]
pub(crate) fn format_i64(v: i64) -> (r: String)
    ensures
        r@ == decimal_text(v as int),
{
    let mut buf = itoa::Buffer::new();
    buf.format(v).to_owned()
}

/// `std::str::from_utf8`: the text that `bytes` encode, where they are valid UTF-8.
#[verifier::external_body]
pub(crate) fn utf8_text(bytes: &[u8]) -> (r: Option<String>)
    ensures
        match r {
            Some(s) => vstd::utf8::valid_utf8(bytes@) && s@ == vstd::utf8::decode_utf8(bytes@),
            None => !vstd::utf8::valid_utf8(bytes@),
        },
{
    match std::str::from_utf8(bytes) {
        Ok(s) => Some(s.to_owned()),
        Err(_) => None,
    }
}

} // verus!
