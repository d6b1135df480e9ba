//! The order of values, as `-1` (less), `0` (equal) and `1` (greater).

use crate::data::model::{self, ValueModel};
use crate::data::value::{self, DataMap, FloatBits, Value};
use vstd::prelude::*;

verus! {

/// `-1`, `0` or `1` as `x` is below, equal to or above `y`.
pub open spec fn compare_int(x: int, y: int) -> int {
    if x < y {
        -1
    } else if x == y {
        0
    } else {
        1
    }
}

/// The position of a kind in the order of kinds: booleans, integers, numbers, strings, byte
/// strings, null, sequences, mappings, time stamps.
pub open spec fn kind_rank(v: ValueModel) -> int {
    match v {
        ValueModel::Bool(_) => 0,
        ValueModel::Integer(_) => 1,
        ValueModel::Number(_) => 2,
        ValueModel::String(_) => 3,
        ValueModel::Bytes(_) => 4,
        ValueModel::Null => 5,
        ValueModel::Sequence(_) => 6,
        ValueModel::Mapping(_) => 7,
        ValueModel::TimeStamp(_, _) => 8,
    }
}

/// The magnitude bits of an encoded number (all but the sign bit).
pub open spec fn float_magnitude(b: u64) -> int {
    (b & 0x7fff_ffff_ffff_ffffu64) as int
}

pub open spec fn float_negative(b: u64) -> bool {
    b >> 63u64 == 1u64
}

/// A key that orders encoded numbers that are not NaN as the numbers are ordered (the
/// magnitude bits order magnitudes, infinities included; both zeros get key 0).
pub open spec fn float_key(b: u64) -> int {
    if float_negative(b) {
        -float_magnitude(b)
    } else {
        float_magnitude(b)
    }
}

/// The encoded number is an infinity (all exponent bits set, mantissa zero).
pub open spec fn float_is_infinite(b: u64) -> bool {
    (b >> 52u64) & 0x7ffu64 == 0x7ffu64 && b & 0xf_ffff_ffff_ffffu64 == 0
}

/// The value of an order code.
pub open spec fn code_value(c: i8) -> int {
    c as int
}

/// The IEEE-754 order of two encoded numbers; NaN is unordered.
pub open spec fn float_order(a: u64, b: u64) -> Option<int> {
    if model::float_is_nan(a) || model::float_is_nan(b) {
        None
    } else {
        Some(compare_int(float_key(a), float_key(b)))
    }
}

/// Lexicographic order of two sequences of integers; a proper prefix comes first.
pub open spec fn lex_order(xs: Seq<int>, ys: Seq<int>) -> int
    decreases xs.len(),
{
    if xs.len() == 0 {
        if ys.len() == 0 {
            0
        } else {
            -1
        }
    } else if ys.len() == 0 {
        1
    } else if xs[0] != ys[0] {
        compare_int(xs[0], ys[0])
    } else {
        lex_order(xs.drop_first(), ys.drop_first())
    }
}

pub open spec fn char_codes(s: Seq<char>) -> Seq<int> {
    s.map_values(|c: char| c as int)
}

pub open spec fn byte_codes(s: Seq<u8>) -> Seq<int> {
    s.map_values(|b: u8| b as int)
}

/// The order of values: values of different kinds by the order of kinds; booleans, integers
/// and time stamps as numbers; numbers as IEEE-754 numbers (NaN unordered); strings by their
/// characters and byte strings by their bytes, lexicographically; sequences lexicographically
/// by the order of their elements; two mappings are ordered only where they are equal.
pub open spec fn value_order(a: ValueModel, b: ValueModel) -> Option<int>
    decreases a,
{
    if kind_rank(a) != kind_rank(b) {
        Some(compare_int(kind_rank(a), kind_rank(b)))
    } else {
        match a {
            ValueModel::Bool(x) => match b {
                ValueModel::Bool(y) => Some(
                    compare_int(
                        if x {
                            1
                        } else {
                            0
                        },
                        if y {
                            1
                        } else {
                            0
                        },
                    ),
                ),
                _ => None,
            },
            ValueModel::Integer(x) => match b {
                ValueModel::Integer(y) => Some(compare_int(x as int, y as int)),
                _ => None,
            },
            ValueModel::Number(x) => match b {
                ValueModel::Number(y) => float_order(x, y),
                _ => None,
            },
            ValueModel::String(x) => match b {
                ValueModel::String(y) => Some(lex_order(char_codes(x), char_codes(y))),
                _ => None,
            },
            ValueModel::Bytes(x) => match b {
                ValueModel::Bytes(y) => Some(lex_order(byte_codes(x), byte_codes(y))),
                _ => None,
            },
            ValueModel::Null => Some(0),
            ValueModel::Sequence(xs) => match b {
                ValueModel::Sequence(ys) => seq_order(xs, ys),
                _ => None,
            },
            ValueModel::Mapping(_) => if model::value_eq(a, b) {
                Some(0)
            } else {
                None
            },
            ValueModel::TimeStamp(s, ns) => match b {
                ValueModel::TimeStamp(t, nt) => Some(
                    if s != t {
                        compare_int(s as int, t as int)
                    } else {
                        compare_int(ns as int, nt as int)
                    },
                ),
                _ => None,
            },
        }
    }
}

/// Lexicographic order of sequences of values: the first pair that is not equal decides (an
/// unordered pair leaves the sequences unordered); a proper prefix comes first.
pub open spec fn seq_order(xs: Seq<ValueModel>, ys: Seq<ValueModel>) -> Option<int>
    decreases xs,
{
    if xs.len() == 0 {
        Some(
            if ys.len() == 0 {
                0
            } else {
                -1
            },
        )
    } else if ys.len() == 0 {
        Some(1)
    } else {
        let c = value_order(xs[0], ys[0]);
        if c == Some(0int) {
            seq_order(xs.subrange(1, xs.len() as int), ys.subrange(1, ys.len() as int))
        } else {
            c
        }
    }
}

// ---------------------------------------------------------------------------
// facts

/// After a common prefix of length `i`, the lexicographic order is that of the rests.
pub proof fn lemma_lex_skip(xs: Seq<int>, ys: Seq<int>, i: int)
    requires
        0 <= i <= xs.len(),
        i <= ys.len(),
        forall|j: int| 0 <= j < i ==> xs[j] == ys[j],
    ensures
        lex_order(xs, ys) == lex_order(xs.subrange(i, xs.len() as int), ys.subrange(i, ys.len() as int)),
    decreases i,
{
    if i == 0 {
        assert(xs.subrange(0, xs.len() as int) =~= xs);
        assert(ys.subrange(0, ys.len() as int) =~= ys);
    } else {
        lemma_lex_skip(xs.drop_first(), ys.drop_first(), i - 1);
        assert(xs.drop_first().subrange(i - 1, xs.len() - 1) =~= xs.subrange(i, xs.len() as int));
        assert(ys.drop_first().subrange(i - 1, ys.len() - 1) =~= ys.subrange(i, ys.len() as int));
    }
}

/// After a prefix of length `i` of equal pairs, the order of sequences is that of the rests.
pub proof fn lemma_seq_order_skip(xs: Seq<ValueModel>, ys: Seq<ValueModel>, i: int)
    requires
        0 <= i <= xs.len(),
        i <= ys.len(),
        forall|j: int| 0 <= j < i ==> value_order(#[trigger] xs[j], ys[j]) == Some(0int),
    ensures
        seq_order(xs, ys) == seq_order(xs.subrange(i, xs.len() as int), ys.subrange(i, ys.len() as int)),
    decreases i,
{
    if i == 0 {
        assert(xs.subrange(0, xs.len() as int) =~= xs);
        assert(ys.subrange(0, ys.len() as int) =~= ys);
    } else {
        let xt = xs.subrange(1, xs.len() as int);
        let yt = ys.subrange(1, ys.len() as int);
        assert(value_order(xs[0], ys[0]) == Some(0int));
        assert forall|j: int| 0 <= j < i - 1 implies value_order(#[trigger] xt[j], yt[j]) == Some(0int) by {
            assert(xt[j] == xs[j + 1] && yt[j] == ys[j + 1]);
        }
        lemma_seq_order_skip(xt, yt, i - 1);
        assert(xt.subrange(i - 1, xt.len() as int) =~= xs.subrange(i, xs.len() as int));
        assert(yt.subrange(i - 1, yt.len() as int) =~= ys.subrange(i, ys.len() as int));
    }
}

// ---------------------------------------------------------------------------
// laws of the order

/// The order the other way round.
pub open spec fn reversed(c: Option<int>) -> Option<int> {
    match c {
        Some(x) => Some(-x),
        None => None,
    }
}

proof fn lemma_lex_reversed(xs: Seq<int>, ys: Seq<int>)
    ensures
        lex_order(ys, xs) == -lex_order(xs, ys),
    decreases xs.len(),
{
    if xs.len() > 0 && ys.len() > 0 && xs[0] == ys[0] {
        lemma_lex_reversed(xs.drop_first(), ys.drop_first());
    }
}

proof fn lemma_lex_reflexive(xs: Seq<int>)
    ensures
        lex_order(xs, xs) == 0,
    decreases xs.len(),
{
    if xs.len() > 0 {
        lemma_lex_reflexive(xs.drop_first());
    }
}

/// Comparing two values the other way round reverses their order, where no mapping holds a
/// key twice.
pub proof fn law_order_reversed(a: ValueModel, b: ValueModel)
    requires
        model::unique_keys(a),
        model::unique_keys(b),
    ensures
        value_order(b, a) == reversed(value_order(a, b)),
    decreases a,
{
    if kind_rank(a) == kind_rank(b) {
        match a {
            ValueModel::String(x) => match b {
                ValueModel::String(y) => lemma_lex_reversed(char_codes(x), char_codes(y)),
                _ => {},
            },
            ValueModel::Bytes(x) => match b {
                ValueModel::Bytes(y) => lemma_lex_reversed(byte_codes(x), byte_codes(y)),
                _ => {},
            },
            ValueModel::Sequence(xs) => match b {
                ValueModel::Sequence(ys) => {
                    assert(decreases_to!(a => xs));
                    model::lemma_all_unique_keys(xs);
                    model::lemma_all_unique_keys(ys);
                    lemma_seq_order_reversed(xs, ys);
                },
                _ => {},
            },
            ValueModel::Mapping(_) => {
                model::law_value_eq_symmetric(a, b);
                model::law_value_eq_symmetric(b, a);
            },
            _ => {},
        }
    }
}

proof fn lemma_seq_order_reversed(xs: Seq<ValueModel>, ys: Seq<ValueModel>)
    requires
        forall|j: int| 0 <= j < xs.len() ==> model::unique_keys(#[trigger] xs[j]),
        forall|j: int| 0 <= j < ys.len() ==> model::unique_keys(#[trigger] ys[j]),
    ensures
        seq_order(ys, xs) == reversed(seq_order(xs, ys)),
    decreases xs,
{
    if xs.len() > 0 && ys.len() > 0 {
        assert(decreases_to!(xs => xs[0]));
        law_order_reversed(xs[0], ys[0]);
        let xt = xs.subrange(1, xs.len() as int);
        let yt = ys.subrange(1, ys.len() as int);
        if value_order(xs[0], ys[0]) == Some(0int) {
            assert forall|j: int| 0 <= j < xt.len() implies model::unique_keys(#[trigger] xt[j]) by {
                assert(xt[j] == xs[j + 1]);
            }
            assert forall|j: int| 0 <= j < yt.len() implies model::unique_keys(#[trigger] yt[j]) by {
                assert(yt[j] == ys[j + 1]);
            }
            lemma_seq_order_reversed(xt, yt);
        }
    }
}

/// Every well-formed value is equal to itself in the order (a NaN is unordered).
pub proof fn law_order_reflexive(v: ValueModel)
    requires
        model::well_formed(v),
    ensures
        value_order(v, v) == Some(0int),
    decreases v,
{
    match v {
        ValueModel::String(x) => lemma_lex_reflexive(char_codes(x)),
        ValueModel::Bytes(x) => lemma_lex_reflexive(byte_codes(x)),
        ValueModel::Mapping(_) => model::law_value_eq_reflexive(v),
        ValueModel::Sequence(xs) => {
            model::lemma_all_well_formed(xs);
            assert forall|j: int| 0 <= j < xs.len() implies value_order(#[trigger] xs[j], xs[j])
                == Some(0int) by {
                assert(decreases_to!(v => xs));
                law_order_reflexive(xs[j]);
            }
            lemma_seq_order_skip(xs, xs, xs.len() as int);
            assert(xs.subrange(xs.len() as int, xs.len() as int).len() == 0);
        },
        _ => {},
    }
}

proof fn lemma_lex_transitive(xs: Seq<int>, ys: Seq<int>, zs: Seq<int>)
    ensures
        lex_order(xs, ys) == -1 && lex_order(ys, zs) == -1 ==> lex_order(xs, zs) == -1,
        lex_order(xs, ys) == -1 && lex_order(ys, zs) == 0 ==> lex_order(xs, zs) == -1,
        lex_order(xs, ys) == 0 && lex_order(ys, zs) == -1 ==> lex_order(xs, zs) == -1,
        lex_order(xs, ys) == 0 && lex_order(ys, zs) == 0 ==> lex_order(xs, zs) == 0,
    decreases xs.len(),
{
    if xs.len() > 0 && ys.len() > 0 && zs.len() > 0 {
        lemma_lex_transitive(xs.drop_first(), ys.drop_first(), zs.drop_first());
    }
}

/// The order is transitive: below-or-equal followed by below-or-equal is below-or-equal, and
/// below unless both steps are equal.
pub proof fn law_order_transitive(a: ValueModel, b: ValueModel, c: ValueModel)
    ensures
        value_order(a, b) == Some(-1int) && value_order(b, c) == Some(-1int) ==> value_order(a, c)
            == Some(-1int),
        value_order(a, b) == Some(-1int) && value_order(b, c) == Some(0int) ==> value_order(a, c)
            == Some(-1int),
        value_order(a, b) == Some(0int) && value_order(b, c) == Some(-1int) ==> value_order(a, c)
            == Some(-1int),
        value_order(a, b) == Some(0int) && value_order(b, c) == Some(0int) ==> value_order(a, c)
            == Some(0int),
    decreases a,
{
    if kind_rank(a) == kind_rank(b) && kind_rank(b) == kind_rank(c) {
        match a {
            ValueModel::String(x) => {
                let y = b->String_0;
                let z = c->String_0;
                lemma_lex_transitive(char_codes(x), char_codes(y), char_codes(z));
            },
            ValueModel::Bytes(x) => {
                let y = b->Bytes_0;
                let z = c->Bytes_0;
                lemma_lex_transitive(byte_codes(x), byte_codes(y), byte_codes(z));
            },
            ValueModel::Sequence(xs) => {
                let ys = b->Sequence_0;
                let zs = c->Sequence_0;
                assert(decreases_to!(a => xs));
                lemma_seq_order_transitive(xs, ys, zs);
            },
            ValueModel::Mapping(_) => {
                model::law_value_eq_transitive(a, b, c);
            },
            _ => {},
        }
    }
}

proof fn lemma_seq_order_transitive(xs: Seq<ValueModel>, ys: Seq<ValueModel>, zs: Seq<ValueModel>)
    ensures
        seq_order(xs, ys) == Some(-1int) && seq_order(ys, zs) == Some(-1int) ==> seq_order(xs, zs)
            == Some(-1int),
        seq_order(xs, ys) == Some(-1int) && seq_order(ys, zs) == Some(0int) ==> seq_order(xs, zs)
            == Some(-1int),
        seq_order(xs, ys) == Some(0int) && seq_order(ys, zs) == Some(-1int) ==> seq_order(xs, zs)
            == Some(-1int),
        seq_order(xs, ys) == Some(0int) && seq_order(ys, zs) == Some(0int) ==> seq_order(xs, zs)
            == Some(0int),
    decreases xs,
{
    if xs.len() > 0 && ys.len() > 0 && zs.len() > 0 {
        assert(decreases_to!(xs => xs[0]));
        law_order_transitive(xs[0], ys[0], zs[0]);
        let xt = xs.subrange(1, xs.len() as int);
        let yt = ys.subrange(1, ys.len() as int);
        let zt = zs.subrange(1, zs.len() as int);
        lemma_seq_order_transitive(xt, yt, zt);
    }
}


/// Two time stamps are ordered as their instants: the one with fewer seconds since the
/// epoch, or with as many seconds and fewer nanoseconds, comes first; equal parts are equal.
pub proof fn law_time_stamps_in_time_order(s: i64, ns: u32, t: i64, nt: u32)
    ensures
        value_order(ValueModel::TimeStamp(s, ns), ValueModel::TimeStamp(t, nt)) == Some(
            if s < t || (s == t && ns < nt) {
                -1int
            } else if s == t && ns == nt {
                0int
            } else {
                1int
            },
        ),
{
}


/// Integers are ordered as numbers, and `false` comes before `true`.
pub proof fn law_integers_and_booleans_in_order(x: i64, y: i64, a: bool, b: bool)
    ensures
        value_order(ValueModel::Integer(x), ValueModel::Integer(y)) == Some(
            if x < y {
                -1int
            } else if x == y {
                0int
            } else {
                1int
            },
        ),
        value_order(ValueModel::Bool(a), ValueModel::Bool(b)) == Some(
            if !a && b {
                -1int
            } else if a == b {
                0int
            } else {
                1int
            },
        ),
{
}

// ---------------------------------------------------------------------------
// computing the order

impl FloatBits {
    /// Whether the encoded number is an infinity.
    pub fn is_infinite(&self) -> (b: bool)
        ensures
            b == float_is_infinite(self.bits),
    {
        (self.bits >> 52u64) & 0x7ffu64 == 0x7ffu64 && self.bits & 0xf_ffff_ffff_ffffu64 == 0
    }

    /// Whether the sign bit is set.
    pub fn is_sign_negative(&self) -> (b: bool)
        ensures
            b == float_negative(self.bits),
    {
        (self.bits >> 63u64) == 1u64
    }
}

fn compare_u64(x: u64, y: u64) -> (r: i8)
    ensures
        r == compare_int(x as int, y as int),
{
    if x < y {
        -1
    } else if x == y {
        0
    } else {
        1
    }
}

fn compare_i64(x: i64, y: i64) -> (r: i8)
    ensures
        r == compare_int(x as int, y as int),
{
    if x < y {
        -1
    } else if x == y {
        0
    } else {
        1
    }
}

fn rank(v: &Value) -> (r: u8)
    ensures
        r == kind_rank(v@),
{
    proof {
        value::lemma_view(v);
    }
    match v {
        Value::Bool(_) => 0,
        Value::Integer(_) => 1,
        Value::Number(_) => 2,
        Value::String(_) => 3,
        Value::Bytes(_) => 4,
        Value::Null => 5,
        Value::Sequence(_) => 6,
        Value::Mapping(_) => 7,
        Value::TimeStamp(_) => 8,
    }
}

/// The IEEE-754 order of two encoded numbers.
fn float_order_exec(a: &FloatBits, b: &FloatBits) -> (r: Option<i8>)
    ensures
        match r {
            Some(c) => float_order(a.bits, b.bits) == Some(c as int),
            None => float_order(a.bits, b.bits) is None,
        },
{
    if a.is_nan() || b.is_nan() {
        return None;
    }
    let ma = a.bits & 0x7fff_ffff_ffff_ffffu64;
    let mb = b.bits & 0x7fff_ffff_ffff_ffffu64;
    let na = (a.bits >> 63u64) == 1u64;
    let nb = (b.bits >> 63u64) == 1u64;
    if !na && !nb {
        Some(compare_u64(ma, mb))
    } else if na && nb {
        Some(compare_u64(mb, ma))
    } else if ma == 0 && mb == 0 {
        Some(0)
    } else if na {
        Some(-1)
    } else {
        Some(1)
    }
}

/// Lexicographic order of two texts by their characters.
fn text_order(x: &str, y: &str) -> (r: i8)
    ensures
        r == lex_order(char_codes(x@), char_codes(y@)),
{
    let nx = x.unicode_len();
    let ny = y.unicode_len();
    let ghost cx = char_codes(x@);
    let ghost cy = char_codes(y@);
    let mut i: usize = 0;
    while i < nx && i < ny
        invariant
            nx == x@.len(),
            ny == y@.len(),
            cx == char_codes(x@),
            cy == char_codes(y@),
            i <= nx,
            i <= ny,
            forall|j: int| 0 <= j < i ==> cx[j] == cy[j],
        decreases nx - i,
    {
        let a = x.get_char(i);
        let b = y.get_char(i);
        if a != b {
            proof {
                lemma_lex_skip(cx, cy, i as int);
                assert(cx.subrange(i as int, cx.len() as int)[0] == a as int);
                assert(cy.subrange(i as int, cy.len() as int)[0] == b as int);
            }
            if (a as u32) < (b as u32) {
                return -1;
            } else {
                return 1;
            }
        }
        i = i + 1;
    }
    proof {
        lemma_lex_skip(cx, cy, i as int);
    }
    if nx == ny {
        0
    } else if i == nx {
        -1
    } else {
        1
    }
}

/// Lexicographic order of two byte strings.
fn bytes_order(x: &Vec<u8>, y: &Vec<u8>) -> (r: i8)
    ensures
        r == lex_order(byte_codes(x@), byte_codes(y@)),
{
    let nx = x.len();
    let ny = y.len();
    let ghost cx = byte_codes(x@);
    let ghost cy = byte_codes(y@);
    let mut i: usize = 0;
    while i < nx && i < ny
        invariant
            nx == x@.len(),
            ny == y@.len(),
            cx == byte_codes(x@),
            cy == byte_codes(y@),
            i <= nx,
            i <= ny,
            forall|j: int| 0 <= j < i ==> cx[j] == cy[j],
        decreases nx - i,
    {
        let a = x[i];
        let b = y[i];
        if a != b {
            proof {
                lemma_lex_skip(cx, cy, i as int);
                assert(cx.subrange(i as int, cx.len() as int)[0] == a as int);
                assert(cy.subrange(i as int, cy.len() as int)[0] == b as int);
            }
            if a < b {
                return -1;
            } else {
                return 1;
            }
        }
        i = i + 1;
    }
    proof {
        lemma_lex_skip(cx, cy, i as int);
    }
    if nx == ny {
        0
    } else if i == nx {
        -1
    } else {
        1
    }
}

impl Value {
    /// The order of two values (see `value_order`), `None` where they are unordered.
    pub fn order(&self, other: &Value) -> (r: Option<i8>)
        ensures
            match r {
                Some(c) => value_order(self@, other@) == Some(c as int),
                None => value_order(self@, other@) is None,
            },
        decreases self,
    {
        proof {
            value::lemma_view(self);
            value::lemma_view(other);
        }
        let ra = rank(self);
        let rb = rank(other);
        if ra != rb {
            return if ra < rb {
                Some(-1)
            } else {
                Some(1)
            };
        }
        match self {
            Value::Bool(x) => match other {
                Value::Bool(y) => Some(
                    if *x == *y {
                        0
                    } else if *y {
                        -1
                    } else {
                        1
                    },
                ),
                _ => None,
            },
            Value::Integer(x) => match other {
                Value::Integer(y) => Some(compare_i64(*x, *y)),
                _ => None,
            },
            Value::Number(x) => match other {
                Value::Number(y) => float_order_exec(x, y),
                _ => None,
            },
            Value::String(x) => match other {
                Value::String(y) => Some(text_order(x.as_str(), y.as_str())),
                _ => None,
            },
            Value::Bytes(x) => match other {
                Value::Bytes(y) => Some(bytes_order(x, y)),
                _ => None,
            },
            Value::Null => Some(0),
            Value::TimeStamp(x) => match other {
                Value::TimeStamp(y) => {
                    if x.secs() != y.secs() {
                        Some(compare_i64(x.secs(), y.secs()))
                    } else {
                        Some(compare_u64(x.nanos() as u64, y.nanos() as u64))
                    }
                },
                _ => None,
            },
            Value::Mapping(_) => {
                if self.equals(other) {
                    Some(0)
                } else {
                    None
                }
            },
            Value::Sequence(xs) => match other {
                Value::Sequence(ys) => {
                    let ghost a = value::models(xs@);
                    let ghost b = value::models(ys@);
                    let nx = xs.len();
                    let ny = ys.len();
                    let mut i: usize = 0;
                    while i < nx && i < ny
                        invariant
                            nx == xs@.len(),
                            ny == ys@.len(),
                            a == value::models(xs@),
                            b == value::models(ys@),
                            *self == Value::Sequence(*xs),
                            self@ == ValueModel::Sequence(a),
                            other@ == ValueModel::Sequence(b),
                            i <= nx,
                            i <= ny,
                            forall|j: int| 0 <= j < i ==> value_order(#[trigger] a[j], b[j]) == Some(0int),
                        decreases nx - i,
                    {
                        proof {
                            assert(a[i as int] == xs@[i as int]@);
                            assert(b[i as int] == ys@[i as int]@);
                            assert((*self)->Sequence_0 == *xs);
                            assert(decreases_to!(*self => (*self)->Sequence_0));
                            assert(decreases_to!(*xs => xs@));
                            assert(decreases_to!(xs@ => xs@[i as int]));
                            assert(decreases_to!(*self => xs@[i as int]));
                        }
                        let c = xs[i].order(&ys[i]);
                        match c {
                            Some(0) => {},
                            _ => {
                                proof {
                                    lemma_seq_order_skip(a, b, i as int);
                                    assert(a.subrange(i as int, a.len() as int)[0] == a[i as int]);
                                    assert(b.subrange(i as int, b.len() as int)[0] == b[i as int]);
                                }
                                return c;
                            },
                        }
                        i = i + 1;
                    }
                    proof {
                        lemma_seq_order_skip(a, b, i as int);
                    }
                    if nx == ny {
                        Some(0)
                    } else if i == nx {
                        Some(-1)
                    } else {
                        Some(1)
                    }
                },
                _ => None,
            },
        }
    }
}

} // verus!
