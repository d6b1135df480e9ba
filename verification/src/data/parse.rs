//! Reading a value as another kind of value: integers, texts and time stamps.

use crate::data::integer::{self, IntegerTarget};
use crate::data::model::ValueModel;
use crate::data::text;
use crate::data::time::{self, Timestamp};
use crate::data::value::{self, Value};
use vstd::prelude::*;

verus! {

/// The integer that a value gives as a `T` in `lo..=hi`: an integer within the range, or a
/// string in the decimal grammar of the standard library.
pub open spec fn integer_of(v: ValueModel, lo: int, hi: int, signed: bool) -> Option<int> {
    match v {
        ValueModel::String(s) => integer::parse_decimal(s, lo, hi, signed),
        ValueModel::Integer(i) => if lo <= i <= hi {
            Some(i as int)
        } else {
            None
        },
        _ => None,
    }
}

/// The text of a value that is not a number: `true`/`false`, the string itself, the text
/// that valid UTF-8 bytes encode, the decimal text of an integer, or the RFC 3339 text of
/// a time stamp.
pub open spec fn text_of(v: ValueModel) -> Option<Seq<char>> {
    match v {
        ValueModel::Bool(b) => Some(
            if b {
                "true"@
            } else {
                "false"@
            },
        ),
        ValueModel::String(s) => Some(s),
        ValueModel::Bytes(bs) => if vstd::utf8::valid_utf8(bs) {
            Some(vstd::utf8::decode_utf8(bs))
        } else {
            None
        },
        ValueModel::Integer(i) => Some(text::decimal_text(i as int)),
        ValueModel::TimeStamp(secs, nanos) => Some(time::rfc3339_text(secs, nanos)),
        _ => None,
    }
}

/// The instant that a value gives: a time stamp itself, or a string in RFC 3339.
pub open spec fn instant_of(v: ValueModel) -> Option<(i64, u32)> {
    match v {
        ValueModel::TimeStamp(secs, nanos) => Some((secs, nanos)),
        ValueModel::String(s) => time::rfc3339_parse(s),
        _ => None,
    }
}

/// `v` read as the kind of `like`, where it can be (numbers excepted).
pub open spec fn same_type_of(v: ValueModel, like: ValueModel) -> Option<ValueModel> {
    match like {
        ValueModel::Bool(_) => match v {
            ValueModel::Bool(b) => Some(ValueModel::Bool(b)),
            _ => None,
        },
        ValueModel::Integer(_) => match integer_of(
            v,
            -0x8000_0000_0000_0000,
            0x7fff_ffff_ffff_ffff,
            true,
        ) {
            Some(i) => Some(ValueModel::Integer(i as i64)),
            None => None,
        },
        ValueModel::String(_) => match text_of(v) {
            Some(s) => Some(ValueModel::String(s)),
            None => None,
        },
        ValueModel::Bytes(_) => match v {
            ValueModel::Bytes(b) => Some(ValueModel::Bytes(b)),
            _ => None,
        },
        ValueModel::Null => match v {
            ValueModel::Null => Some(ValueModel::Null),
            _ => None,
        },
        ValueModel::Sequence(_) => match v {
            ValueModel::Sequence(xs) => Some(ValueModel::Sequence(xs)),
            _ => None,
        },
        ValueModel::Mapping(_) => match v {
            ValueModel::Mapping(m) => Some(ValueModel::Mapping(m)),
            _ => None,
        },
        ValueModel::TimeStamp(_, _) => match instant_of(v) {
            Some(t) => Some(ValueModel::TimeStamp(t.0, t.1)),
            None => None,
        },
        ValueModel::Number(_) => None,
    }
}

impl Value {
    /// Reads the value as an integer of type `T`: an integer within the range of `T`, or a
    /// string in the decimal grammar of the standard library.
    pub fn parse_integer<T: IntegerTarget>(&self) -> (r: Option<T>)
        ensures
            match r {
                Some(x) => integer_of(self@, T::min_int(), T::max_int(), T::is_signed()) == Some(
                    x.to_int(),
                ),
                None => integer_of(self@, T::min_int(), T::max_int(), T::is_signed()) is None,
            },
    {
        proof {
            value::lemma_view(self);
        }
        match self {
            Value::String(s) => integer::parse_decimal_as::<T>(s.as_str()),
            Value::Integer(v) => integer::from_i64_as::<T>(*v),
            _ => None,
        }
    }

    /// The text of the value (see `text_of`); numbers are not read here.
    pub fn parse_str(&self) -> (r: Option<String>)
        requires
            !(self@ is Number),
        ensures
            match r {
                Some(s) => text_of(self@) == Some(s@),
                None => text_of(self@) is None,
            },
    {
        proof {
            value::lemma_view(self);
        }
        match self {
            Value::Bool(b) => {
                if *b {
                    Some("true".to_owned())
                } else {
                    Some("false".to_owned())
                }
            },
            Value::String(s) => Some(s.clone()),
            Value::Bytes(bytes) => text::utf8_text(bytes.as_slice()),
            Value::Integer(v) => Some(text::format_i64(*v)),
            Value::TimeStamp(t) => Some(t.to_rfc3339()),
            _ => None,
        }
    }

    /// The instant of the value: a time stamp itself, or a string in RFC 3339.
    pub fn parse_timestamp(&self) -> (r: Option<Timestamp>)
        ensures
            match r {
                Some(t) => instant_of(self@) == Some(t@),
                None => instant_of(self@) is None,
            },
    {
        proof {
            value::lemma_view(self);
        }
        match self {
            Value::TimeStamp(t) => Some(*t),
            Value::String(s) => Timestamp::parse(s.as_str()),
            _ => None,
        }
    }

    /// The value read as the kind of `other` (see `same_type_of`); reading as a number, and
    /// reading a number as a text, are not done here.
    pub fn as_same_type(&self, other: &Value) -> (r: Option<Value>)
        requires
            !(other@ is Number),
            other@ is String ==> !(self@ is Number),
        ensures
            match r {
                Some(x) => same_type_of(self@, other@) == Some(x@),
                None => same_type_of(self@, other@) is None,
            },
    {
        proof {
            value::lemma_view(self);
            value::lemma_view(other);
        }
        let r = match other {
            Value::Bool(_) => match self.as_bool() {
                Some(b) => Some(Value::Bool(b)),
                None => None,
            },
            Value::Integer(_) => match self.parse_integer::<i64>() {
                Some(i) => Some(Value::Integer(i)),
                None => None,
            },
            Value::String(_) => match self.parse_str() {
                Some(s) => {
                    let r = Value::String(s);
                    proof {
                        value::lemma_view(&r);
                    }
                    Some(r)
                },
                None => None,
            },
            Value::Bytes(_) => match self {
                Value::Bytes(_) => Some(self.deep_copy()),
                _ => None,
            },
            Value::Null => match self {
                Value::Null => Some(Value::Null),
                _ => None,
            },
            Value::Sequence(_) => match self {
                Value::Sequence(_) => Some(self.deep_copy()),
                _ => None,
            },
            Value::Mapping(_) => match self {
                Value::Mapping(_) => Some(self.deep_copy()),
                _ => None,
            },
            Value::TimeStamp(_) => match self.parse_timestamp() {
                Some(t) => {
                    let r = Value::TimeStamp(t);
                    proof {
                        value::lemma_view(&r);
                    }
                    Some(r)
                },
                None => None,
            },
            Value::Number(_) => None,
        };
        proof {
            if r is Some {
                value::lemma_view(&r->0);
            }
        }
        r
    }
}

} // verus!

verus! {

/// The decimal digits of a number are digits, and denote that number.
pub proof fn lemma_decimal_digits(n: nat)
    ensures
        text::decimal_digits(n).len() > 0,
        crate::data::model::all_digits(text::decimal_digits(n)),
        crate::data::model::digits_value(text::decimal_digits(n)) == n,
        text::decimal_digits(n)[0] != '+' && text::decimal_digits(n)[0] != '-',
    decreases n,
{
    let d = text::decimal_digits(n);
    if n < 10 {
        assert(text::digit_char(n) as int == '0' as int + n);
        assert(d == seq![text::digit_char(n)]);
        assert(d.drop_last() =~= Seq::<char>::empty());
        assert(crate::data::model::digits_value(d) == crate::data::model::digits_value(
            d.drop_last(),
        ) * 10 + crate::data::model::digit_value(d.last()));
    } else {
        lemma_decimal_digits(n / 10);
        let rest = text::decimal_digits(n / 10);
        let c = text::digit_char(n % 10);
        assert(c as int == '0' as int + (n % 10));
        assert(d == rest.push(c));
        assert(d.drop_last() =~= rest);
        assert forall|i: int| 0 <= i < d.len() implies crate::data::model::is_digit(#[trigger] d[i]) by {
            if i < rest.len() {
                assert(d[i] == rest[i]);
            }
        }
        assert(d[0] == rest[0]);
        assert(n == (n / 10) * 10 + n % 10) by (nonlinear_arith);
        assert(crate::data::model::digits_value(d) == crate::data::model::digits_value(rest) * 10
            + crate::data::model::digit_value(c));
    }
}

/// Reading the text of an integer back as a 64-bit integer gives that integer.
pub proof fn law_integer_text_round_trip(i: i64)
    ensures
        text_of(ValueModel::Integer(i)) matches Some(s) && integer_of(
            ValueModel::String(s),
            -0x8000_0000_0000_0000,
            0x7fff_ffff_ffff_ffff,
            true,
        ) == Some(i as int),
{
    let v = i as int;
    let s = text::decimal_text(v);
    if v < 0 {
        lemma_decimal_digits((-v) as nat);
        let ds = text::decimal_digits((-v) as nat);
        assert(s == seq!['-'] + ds);
        assert(s[0] == '-');
        assert(s.drop_first() =~= ds);
    } else {
        lemma_decimal_digits(v as nat);
        assert(s[0] != '+' && s[0] != '-');
    }
}


/// Reading a value as the kind of another gives a value of that kind; a value that already
/// is of that kind (numbers excepted) is given back as it is.
pub proof fn law_same_type_has_the_kind(v: ValueModel, like: ValueModel)
    ensures
        same_type_of(v, like) matches Some(r) ==> crate::data::model::same_kind(r, like),
        crate::data::model::same_kind(v, like) && !(like is Number) ==> same_type_of(v, like)
            == Some(v),
{
}


/// Reading a value as an integer of any target type: an integer is taken exactly when it
/// lies within the type's range, a string is read in the decimal grammar of the standard
/// library within that range, and every other kind (numbers included) gives `None`.
pub proof fn law_parse_integer_range<T: IntegerTarget>(v: ValueModel)
    ensures
        v matches ValueModel::Integer(i) ==> integer_of(v, T::min_int(), T::max_int(), T::is_signed())
            == if T::min_int() <= i <= T::max_int() {
            Some(i as int)
        } else {
            None
        },
        v matches ValueModel::String(s) ==> integer_of(v, T::min_int(), T::max_int(), T::is_signed())
            == integer::parse_decimal(s, T::min_int(), T::max_int(), T::is_signed()),
        !(v is Integer) && !(v is String) ==> integer_of(
            v,
            T::min_int(),
            T::max_int(),
            T::is_signed(),
        ) is None,
{
}

} // verus!
