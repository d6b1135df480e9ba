//! Reading integers of the primitive types from texts and from 64-bit integers.

use crate::data::model;
use crate::data::path;
use vstd::prelude::*;

verus! {

/// The sign and the digits of an integer text: one leading `+`, or a leading `-` where the
/// type is signed, is a sign; everything after it must be digits.
pub open spec fn sign_and_digits(s: Seq<char>, signed: bool) -> (bool, Seq<char>) {
    if s.len() > 0 && s[0] == '+' {
        (false, s.drop_first())
    } else if s.len() > 0 && s[0] == '-' && signed {
        (true, s.drop_first())
    } else {
        (false, s)
    }
}

/// The integer that `s` denotes in the decimal grammar of the standard library (an optional
/// sign, then at least one ASCII digit, nothing else), where it lies in `lo..=hi`.
pub open spec fn parse_decimal(s: Seq<char>, lo: int, hi: int, signed: bool) -> Option<int> {
    let ds = sign_and_digits(s, signed).1;
    if ds.len() > 0 && model::all_digits(ds) {
        let v = if sign_and_digits(s, signed).0 {
            -model::digits_value(ds)
        } else {
            model::digits_value(ds)
        };
        if lo <= v <= hi {
            Some(v)
        } else {
            None
        }
    } else {
        None
    }
}

/// A primitive integer type that values can be read as.
pub trait IntegerTarget: Sized {
    spec fn min_int() -> int;

    spec fn max_int() -> int;

    spec fn is_signed() -> bool;

    spec fn to_int(self) -> int;

    proof fn lemma_range()
        ensures
            -0x8000_0000_0000_0000 <= Self::min_int() <= 0 < Self::max_int()
                <= 0xffff_ffff_ffff_ffff,
            !Self::is_signed() ==> Self::min_int() == 0,
    ;

    fn signed() -> (b: bool)
        ensures
            b == Self::is_signed(),
    ;

    /// `v` in this type, where it lies in its range.
    fn from_i128(v: i128) -> (r: Option<Self>)
        ensures
            match r {
                Some(x) => Self::min_int() <= v <= Self::max_int() && x.to_int() == v,
                None => !(Self::min_int() <= v <= Self::max_int()),
            },
    ;
}

impl IntegerTarget for u8 {
    open spec fn min_int() -> int {
        0
    }

    open spec fn max_int() -> int {
        0xff
    }

    open spec fn is_signed() -> bool {
        false
    }

    open spec fn to_int(self) -> int {
        self as int
    }

    proof fn lemma_range() {
    }

    fn signed() -> (b: bool) {
        false
    }

    fn from_i128(v: i128) -> (r: Option<u8>) {
        if 0 <= v && v <= 0xff {
            Some(v as u8)
        } else {
            None
        }
    }
}

impl IntegerTarget for u16 {
    open spec fn min_int() -> int {
        0
    }

    open spec fn max_int() -> int {
        0xffff
    }

    open spec fn is_signed() -> bool {
        false
    }

    open spec fn to_int(self) -> int {
        self as int
    }

    proof fn lemma_range() {
    }

    fn signed() -> (b: bool) {
        false
    }

    fn from_i128(v: i128) -> (r: Option<u16>) {
        if 0 <= v && v <= 0xffff {
            Some(v as u16)
        } else {
            None
        }
    }
}

impl IntegerTarget for u32 {
    open spec fn min_int() -> int {
        0
    }

    open spec fn max_int() -> int {
        0xffff_ffff
    }

    open spec fn is_signed() -> bool {
        false
    }

    open spec fn to_int(self) -> int {
        self as int
    }

    proof fn lemma_range() {
    }

    fn signed() -> (b: bool) {
        false
    }

    fn from_i128(v: i128) -> (r: Option<u32>) {
        if 0 <= v && v <= 0xffff_ffff {
            Some(v as u32)
        } else {
            None
        }
    }
}

impl IntegerTarget for u64 {
    open spec fn min_int() -> int {
        0
    }

    open spec fn max_int() -> int {
        0xffff_ffff_ffff_ffff
    }

    open spec fn is_signed() -> bool {
        false
    }

    open spec fn to_int(self) -> int {
        self as int
    }

    proof fn lemma_range() {
    }

    fn signed() -> (b: bool) {
        false
    }

    fn from_i128(v: i128) -> (r: Option<u64>) {
        if 0 <= v && v <= 0xffff_ffff_ffff_ffff {
            Some(v as u64)
        } else {
            None
        }
    }
}

impl IntegerTarget for i8 {
    open spec fn min_int() -> int {
        -0x80
    }

    open spec fn max_int() -> int {
        0x7f
    }

    open spec fn is_signed() -> bool {
        true
    }

    open spec fn to_int(self) -> int {
        self as int
    }

    proof fn lemma_range() {
    }

    fn signed() -> (b: bool) {
        true
    }

    fn from_i128(v: i128) -> (r: Option<i8>) {
        if -0x80 <= v && v <= 0x7f {
            Some(v as i8)
        } else {
            None
        }
    }
}

impl IntegerTarget for i16 {
    open spec fn min_int() -> int {
        -0x8000
    }

    open spec fn max_int() -> int {
        0x7fff
    }

    open spec fn is_signed() -> bool {
        true
    }

    open spec fn to_int(self) -> int {
        self as int
    }

    proof fn lemma_range() {
    }

    fn signed() -> (b: bool) {
        true
    }

    fn from_i128(v: i128) -> (r: Option<i16>) {
        if -0x8000 <= v && v <= 0x7fff {
            Some(v as i16)
        } else {
            None
        }
    }
}

impl IntegerTarget for i32 {
    open spec fn min_int() -> int {
        -0x8000_0000
    }

    open spec fn max_int() -> int {
        0x7fff_ffff
    }

    open spec fn is_signed() -> bool {
        true
    }

    open spec fn to_int(self) -> int {
        self as int
    }

    proof fn lemma_range() {
    }

    fn signed() -> (b: bool) {
        true
    }

    fn from_i128(v: i128) -> (r: Option<i32>) {
        if -0x8000_0000 <= v && v <= 0x7fff_ffff {
            Some(v as i32)
        } else {
            None
        }
    }
}

impl IntegerTarget for i64 {
    open spec fn min_int() -> int {
        -0x8000_0000_0000_0000
    }

    open spec fn max_int() -> int {
        0x7fff_ffff_ffff_ffff
    }

    open spec fn is_signed() -> bool {
        true
    }

    open spec fn to_int(self) -> int {
        self as int
    }

    proof fn lemma_range() {
    }

    fn signed() -> (b: bool) {
        true
    }

    fn from_i128(v: i128) -> (r: Option<i64>) {
        if -0x8000_0000_0000_0000 <= v && v <= 0x7fff_ffff_ffff_ffff {
            Some(v as i64)
        } else {
            None
        }
    }
}

/// Reads the characters of `s` from `start` on as decimal digits, where they all are digits
/// (at least one) and denote a number that fits in `u64`.
fn parse_digits(s: &str, start: usize) -> (r: Option<u64>)
    requires
        start <= s@.len(),
    ensures
        ({
            let ds = s@.subrange(start as int, s@.len() as int);
            match r {
                Some(m) => ds.len() > 0 && model::all_digits(ds) && model::digits_value(ds) == m,
                None => !(ds.len() > 0 && model::all_digits(ds)) || model::digits_value(ds)
                    > 0xffff_ffff_ffff_ffff,
            }
        }),
{
    let n = s.unicode_len();
    let ghost ds = s@.subrange(start as int, n as int);
    if start == n {
        return None;
    }
    let mut acc: u64 = 0;
    let mut i: usize = start;
    proof {
        assert(ds.take(0) =~= Seq::<char>::empty());
    }
    while i < n
        invariant
            n == s@.len(),
            start <= i <= n,
            ds == s@.subrange(start as int, n as int),
            model::all_digits(ds.take(i - start)),
            acc == model::digits_value(ds.take(i - start)),
        decreases n - i,
    {
        let c = s.get_char(i);
        let ghost k: int = i - start;
        proof {
            assert(ds[k] == c);
            assert(ds.take(k + 1).drop_last() =~= ds.take(k));
            model::lemma_digits_value_nonneg(ds.take(k));
        }
        if !('0' <= c && c <= '9') {
            proof {
                assert(!model::is_digit(ds[k]));
            }
            return None;
        }
        let d = (c as u32 - '0' as u32) as u64;
        match acc.checked_mul(10) {
            Some(m) => match m.checked_add(d) {
                Some(a) => {
                    acc = a;
                },
                None => {
                    proof {
                        path::lemma_digits_value_monotone(ds, k + 1);
                    }
                    return None;
                },
            },
            None => {
                proof {
                    path::lemma_digits_value_monotone(ds, k + 1);
                }
                return None;
            },
        }
        i = i + 1;
        proof {
            assert forall|j: int| 0 <= j < k + 1 implies model::is_digit(
                #[trigger] ds.take(k + 1)[j],
            ) by {
                if j < k {
                    assert(ds.take(k + 1)[j] == ds.take(k)[j]);
                }
            }
        }
    }
    proof {
        assert(ds.take(n - start) =~= ds);
    }
    Some(acc)
}

/// Reads `s` as an integer of type `T` in the decimal grammar of the standard library.
pub fn parse_decimal_as<T: IntegerTarget>(s: &str) -> (r: Option<T>)
    ensures
        match r {
            Some(x) => parse_decimal(s@, T::min_int(), T::max_int(), T::is_signed()) == Some(
                x.to_int(),
            ),
            None => parse_decimal(s@, T::min_int(), T::max_int(), T::is_signed()) is None,
        },
{
    proof {
        T::lemma_range();
    }
    let n = s.unicode_len();
    let signed = T::signed();
    let mut neg = false;
    let mut start: usize = 0;
    if n > 0 {
        let c = s.get_char(0);
        if c == '+' {
            start = 1;
        } else if c == '-' && signed {
            neg = true;
            start = 1;
        }
    }
    let ghost sd = sign_and_digits(s@, T::is_signed());
    proof {
        assert(sd.1 =~= s@.subrange(start as int, n as int));
        assert(sd.0 == neg);
    }
    match parse_digits(s, start) {
        Some(m) => {
            let v: i128 = if neg {
                -(m as i128)
            } else {
                m as i128
            };
            proof {
                assert(v == if sd.0 {
                    -model::digits_value(sd.1)
                } else {
                    model::digits_value(sd.1)
                });
            }
            T::from_i128(v)
        },
        None => None,
    }
}

/// `v` as an integer of type `T`, where it lies in the range of `T`.
pub fn from_i64_as<T: IntegerTarget>(v: i64) -> (r: Option<T>)
    ensures
        match r {
            Some(x) => T::min_int() <= v <= T::max_int() && x.to_int() == v,
            None => !(T::min_int() <= v <= T::max_int()),
        },
{
    T::from_i128(v as i128)
}

} // verus!
