//! Conversions of plain values into `Value`.

use crate::data::time::Timestamp;
use crate::data::value::{DataMap, FloatBits, Value};
use vstd::prelude::*;
use vstd::std_specs::convert::FromSpecImpl;

verus! {

impl From<bool> for Value {
    fn from(v: bool) -> (r: Value) {
        Value::Bool(v)
    }
}

impl FromSpecImpl<bool> for Value {
    open spec fn obeys_from_spec() -> bool {
        true
    }

    open spec fn from_spec(v: bool) -> Value {
        Value::Bool(v)
    }
}

impl From<i64> for Value {
    fn from(v: i64) -> (r: Value) {
        Value::Integer(v)
    }
}

impl FromSpecImpl<i64> for Value {
    open spec fn obeys_from_spec() -> bool {
        true
    }

    open spec fn from_spec(v: i64) -> Value {
        Value::Integer(v)
    }
}

impl From<i32> for Value {
    fn from(v: i32) -> (r: Value) {
        Value::Integer(v as i64)
    }
}

impl FromSpecImpl<i32> for Value {
    open spec fn obeys_from_spec() -> bool {
        true
    }

    open spec fn from_spec(v: i32) -> Value {
        Value::Integer(v as i64)
    }
}

impl From<i16> for Value {
    fn from(v: i16) -> (r: Value) {
        Value::Integer(v as i64)
    }
}

impl FromSpecImpl<i16> for Value {
    open spec fn obeys_from_spec() -> bool {
        true
    }

    open spec fn from_spec(v: i16) -> Value {
        Value::Integer(v as i64)
    }
}

impl From<i8> for Value {
    fn from(v: i8) -> (r: Value) {
        Value::Integer(v as i64)
    }
}

impl FromSpecImpl<i8> for Value {
    open spec fn obeys_from_spec() -> bool {
        true
    }

    open spec fn from_spec(v: i8) -> Value {
        Value::Integer(v as i64)
    }
}

impl From<u8> for Value {
    fn from(v: u8) -> (r: Value) {
        Value::Integer(v as i64)
    }
}

impl FromSpecImpl<u8> for Value {
    open spec fn obeys_from_spec() -> bool {
        true
    }

    open spec fn from_spec(v: u8) -> Value {
        Value::Integer(v as i64)
    }
}

impl From<u16> for Value {
    fn from(v: u16) -> (r: Value) {
        Value::Integer(v as i64)
    }
}

impl FromSpecImpl<u16> for Value {
    open spec fn obeys_from_spec() -> bool {
        true
    }

    open spec fn from_spec(v: u16) -> Value {
        Value::Integer(v as i64)
    }
}

impl From<u32> for Value {
    fn from(v: u32) -> (r: Value) {
        Value::Integer(v as i64)
    }
}

impl FromSpecImpl<u32> for Value {
    open spec fn obeys_from_spec() -> bool {
        true
    }

    open spec fn from_spec(v: u32) -> Value {
        Value::Integer(v as i64)
    }
}

/// A `u64` above the range of `i64` becomes `Null`.
impl From<u64> for Value {
    fn from(v: u64) -> (r: Value) {
        if v <= 0x7fff_ffff_ffff_ffff {
            Value::Integer(v as i64)
        } else {
            Value::Null
        }
    }
}

impl FromSpecImpl<u64> for Value {
    open spec fn obeys_from_spec() -> bool {
        true
    }

    open spec fn from_spec(v: u64) -> Value {
        if v <= i64::MAX {
            Value::Integer(v as i64)
        } else {
            Value::Null
        }
    }
}

/// A `usize` is converted as by `as i64` (wrapping above the range of `i64`).
impl From<usize> for Value {
    fn from(v: usize) -> (r: Value) {
        Value::Integer(v as i64)
    }
}

impl FromSpecImpl<usize> for Value {
    open spec fn obeys_from_spec() -> bool {
        true
    }

    open spec fn from_spec(v: usize) -> Value {
        Value::Integer(v as i64)
    }
}

impl From<FloatBits> for Value {
    fn from(v: FloatBits) -> (r: Value) {
        Value::Number(v)
    }
}

impl FromSpecImpl<FloatBits> for Value {
    open spec fn obeys_from_spec() -> bool {
        true
    }

    open spec fn from_spec(v: FloatBits) -> Value {
        Value::Number(v)
    }
}

impl From<String> for Value {
    fn from(v: String) -> (r: Value) {
        Value::String(v)
    }
}

impl FromSpecImpl<String> for Value {
    open spec fn obeys_from_spec() -> bool {
        true
    }

    open spec fn from_spec(v: String) -> Value {
        Value::String(v)
    }
}

impl From<Vec<u8>> for Value {
    fn from(v: Vec<u8>) -> (r: Value) {
        Value::Bytes(v)
    }
}

impl FromSpecImpl<Vec<u8>> for Value {
    open spec fn obeys_from_spec() -> bool {
        true
    }

    open spec fn from_spec(v: Vec<u8>) -> Value {
        Value::Bytes(v)
    }
}

impl From<Vec<Value>> for Value {
    fn from(v: Vec<Value>) -> (r: Value) {
        Value::Sequence(v)
    }
}

impl FromSpecImpl<Vec<Value>> for Value {
    open spec fn obeys_from_spec() -> bool {
        true
    }

    open spec fn from_spec(v: Vec<Value>) -> Value {
        Value::Sequence(v)
    }
}

impl From<DataMap> for Value {
    fn from(v: DataMap) -> (r: Value) {
        Value::Mapping(v)
    }
}

impl FromSpecImpl<DataMap> for Value {
    open spec fn obeys_from_spec() -> bool {
        true
    }

    open spec fn from_spec(v: DataMap) -> Value {
        Value::Mapping(v)
    }
}

impl From<Timestamp> for Value {
    fn from(v: Timestamp) -> (r: Value) {
        Value::TimeStamp(v)
    }
}

impl FromSpecImpl<Timestamp> for Value {
    open spec fn obeys_from_spec() -> bool {
        true
    }

    open spec fn from_spec(v: Timestamp) -> Value {
        Value::TimeStamp(v)
    }
}

impl Value {
    /// A string value holding a copy of `v`.
    pub fn from_str_slice(v: &str) -> (r: Value)
        ensures
            r == Value::String(r->String_0),
            r->String_0@ == v@,
    {
        Value::String(v.to_owned())
    }
}

} // verus!
