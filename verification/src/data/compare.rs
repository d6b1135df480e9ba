//! Comparison of values with plain values (`Value == bool`, `Value == &str`, ...).

use crate::data::model::{self, ValueModel};
use crate::data::time::Timestamp;
use crate::data::value::{bytes_eq, lemma_view, DataMap, FloatBits, Value};
use vstd::prelude::*;
use vstd::std_specs::cmp::PartialEqSpecImpl;

verus! {

fn value_eq_bool(v: &Value, b: bool) -> (r: bool)
    ensures
        r == (v@ == ValueModel::Bool(b)),
{
    match v.as_bool() {
        Some(x) => x == b,
        None => false,
    }
}

fn value_eq_u64(v: &Value, n: u64) -> (r: bool)
    ensures
        r == (n <= i64::MAX && v@ == ValueModel::Integer(n as i64)),
{
    if n > 0x7fff_ffff_ffff_ffff {
        return false;
    }
    proof {
        lemma_view(v);
    }
    match v {
        Value::Integer(x) => *x == n as i64,
        _ => false,
    }
}

fn value_eq_i64(v: &Value, n: i64) -> (r: bool)
    ensures
        r == (v@ == ValueModel::Integer(n)),
{
    proof {
        lemma_view(v);
    }
    match v {
        Value::Integer(x) => *x == n,
        _ => false,
    }
}

fn value_eq_float(v: &Value, f: &FloatBits) -> (r: bool)
    ensures
        r == (v@ matches ValueModel::Number(b) && model::float_eq(b, f.bits)),
{
    proof {
        lemma_view(v);
    }
    match v {
        Value::Number(x) => x.ieee_eq(f),
        _ => false,
    }
}

fn value_eq_str(v: &Value, s: &str) -> (r: bool)
    ensures
        r == (v@ == ValueModel::String(s@)),
{
    proof {
        lemma_view(v);
    }
    match v {
        Value::String(x) => *x == s.to_owned(),
        _ => false,
    }
}

fn value_eq_map(v: &Value, m: &DataMap) -> (r: bool)
    ensures
        r == (v@ matches ValueModel::Mapping(e) && e.len() == m@.len() && model::entries_in(e, m@)),
{
    proof {
        lemma_view(v);
    }
    match v {
        Value::Mapping(x) => x.equals(m),
        _ => false,
    }
}

fn value_eq_bytes(v: &Value, b: &Vec<u8>) -> (r: bool)
    ensures
        r == (v@ == ValueModel::Bytes(b@)),
{
    proof {
        lemma_view(v);
    }
    match v {
        Value::Bytes(x) => bytes_eq(x, b),
        _ => false,
    }
}

fn value_eq_timestamp(v: &Value, t: &Timestamp) -> (r: bool)
    ensures
        r == (v@ == ValueModel::TimeStamp(t@.0, t@.1)),
{
    proof {
        lemma_view(v);
    }
    match v {
        Value::TimeStamp(x) => x.same_instant(t),
        _ => false,
    }
}

impl PartialEq<bool> for Value {
    fn eq(&self, other: &bool) -> (r: bool) {
        value_eq_bool(self, *other)
    }
}

impl PartialEqSpecImpl<bool> for Value {
    open spec fn obeys_eq_spec() -> bool {
        true
    }

    open spec fn eq_spec(&self, other: &bool) -> bool {
        self@ == ValueModel::Bool(*other)
    }
}

impl PartialEq<u64> for Value {
    fn eq(&self, other: &u64) -> (r: bool) {
        value_eq_u64(self, *other)
    }
}

impl PartialEqSpecImpl<u64> for Value {
    open spec fn obeys_eq_spec() -> bool {
        true
    }

    open spec fn eq_spec(&self, other: &u64) -> bool {
        *other <= i64::MAX && self@ == ValueModel::Integer(*other as i64)
    }
}

impl PartialEq<i64> for Value {
    fn eq(&self, other: &i64) -> (r: bool) {
        value_eq_i64(self, *other)
    }
}

impl PartialEqSpecImpl<i64> for Value {
    open spec fn obeys_eq_spec() -> bool {
        true
    }

    open spec fn eq_spec(&self, other: &i64) -> bool {
        self@ == ValueModel::Integer(*other)
    }
}

impl PartialEq<FloatBits> for Value {
    fn eq(&self, other: &FloatBits) -> (r: bool) {
        value_eq_float(self, other)
    }
}

impl PartialEqSpecImpl<FloatBits> for Value {
    open spec fn obeys_eq_spec() -> bool {
        true
    }

    open spec fn eq_spec(&self, other: &FloatBits) -> bool {
        self@ matches ValueModel::Number(b) && model::float_eq(b, other.bits)
    }
}

impl<'a> PartialEq<bool> for &'a Value {
    fn eq(&self, other: &bool) -> (r: bool) {
        value_eq_bool(*self, *other)
    }
}

impl<'a> PartialEqSpecImpl<bool> for &'a Value {
    open spec fn obeys_eq_spec() -> bool {
        true
    }

    open spec fn eq_spec(&self, other: &bool) -> bool {
        (*self)@ == ValueModel::Bool(*other)
    }
}

impl<'a> PartialEq<u64> for &'a Value {
    fn eq(&self, other: &u64) -> (r: bool) {
        value_eq_u64(*self, *other)
    }
}

impl<'a> PartialEqSpecImpl<u64> for &'a Value {
    open spec fn obeys_eq_spec() -> bool {
        true
    }

    open spec fn eq_spec(&self, other: &u64) -> bool {
        *other <= i64::MAX && (*self)@ == ValueModel::Integer(*other as i64)
    }
}

impl<'a> PartialEq<i64> for &'a Value {
    fn eq(&self, other: &i64) -> (r: bool) {
        value_eq_i64(*self, *other)
    }
}

impl<'a> PartialEqSpecImpl<i64> for &'a Value {
    open spec fn obeys_eq_spec() -> bool {
        true
    }

    open spec fn eq_spec(&self, other: &i64) -> bool {
        (*self)@ == ValueModel::Integer(*other)
    }
}

impl<'a> PartialEq<FloatBits> for &'a Value {
    fn eq(&self, other: &FloatBits) -> (r: bool) {
        value_eq_float(*self, other)
    }
}

impl<'a> PartialEqSpecImpl<FloatBits> for &'a Value {
    open spec fn obeys_eq_spec() -> bool {
        true
    }

    open spec fn eq_spec(&self, other: &FloatBits) -> bool {
        (*self)@ matches ValueModel::Number(b) && model::float_eq(b, other.bits)
    }
}

impl<'a> PartialEq<bool> for &'a mut Value {
    fn eq(&self, other: &bool) -> (r: bool) {
        value_eq_bool(*self, *other)
    }
}

impl<'a> PartialEqSpecImpl<bool> for &'a mut Value {
    open spec fn obeys_eq_spec() -> bool {
        true
    }

    open spec fn eq_spec(&self, other: &bool) -> bool {
        (*self)@ == ValueModel::Bool(*other)
    }
}

impl<'a> PartialEq<u64> for &'a mut Value {
    fn eq(&self, other: &u64) -> (r: bool) {
        value_eq_u64(*self, *other)
    }
}

impl<'a> PartialEqSpecImpl<u64> for &'a mut Value {
    open spec fn obeys_eq_spec() -> bool {
        true
    }

    open spec fn eq_spec(&self, other: &u64) -> bool {
        *other <= i64::MAX && (*self)@ == ValueModel::Integer(*other as i64)
    }
}

impl<'a> PartialEq<i64> for &'a mut Value {
    fn eq(&self, other: &i64) -> (r: bool) {
        value_eq_i64(*self, *other)
    }
}

impl<'a> PartialEqSpecImpl<i64> for &'a mut Value {
    open spec fn obeys_eq_spec() -> bool {
        true
    }

    open spec fn eq_spec(&self, other: &i64) -> bool {
        (*self)@ == ValueModel::Integer(*other)
    }
}

impl<'a> PartialEq<FloatBits> for &'a mut Value {
    fn eq(&self, other: &FloatBits) -> (r: bool) {
        value_eq_float(*self, other)
    }
}

impl<'a> PartialEqSpecImpl<FloatBits> for &'a mut Value {
    open spec fn obeys_eq_spec() -> bool {
        true
    }

    open spec fn eq_spec(&self, other: &FloatBits) -> bool {
        (*self)@ matches ValueModel::Number(b) && model::float_eq(b, other.bits)
    }
}

impl PartialEq<Value> for bool {
    fn eq(&self, other: &Value) -> (r: bool) {
        value_eq_bool(other, *self)
    }
}

impl PartialEqSpecImpl<Value> for bool {
    open spec fn obeys_eq_spec() -> bool {
        true
    }

    open spec fn eq_spec(&self, other: &Value) -> bool {
        other@ == ValueModel::Bool(*self)
    }
}

impl PartialEq<Value> for u64 {
    fn eq(&self, other: &Value) -> (r: bool) {
        value_eq_u64(other, *self)
    }
}

impl PartialEqSpecImpl<Value> for u64 {
    open spec fn obeys_eq_spec() -> bool {
        true
    }

    open spec fn eq_spec(&self, other: &Value) -> bool {
        *self <= i64::MAX && other@ == ValueModel::Integer(*self as i64)
    }
}

impl PartialEq<Value> for i64 {
    fn eq(&self, other: &Value) -> (r: bool) {
        value_eq_i64(other, *self)
    }
}

impl PartialEqSpecImpl<Value> for i64 {
    open spec fn obeys_eq_spec() -> bool {
        true
    }

    open spec fn eq_spec(&self, other: &Value) -> bool {
        other@ == ValueModel::Integer(*self)
    }
}

impl PartialEq<Value> for FloatBits {
    fn eq(&self, other: &Value) -> (r: bool) {
        value_eq_float(other, self)
    }
}

impl PartialEqSpecImpl<Value> for FloatBits {
    open spec fn obeys_eq_spec() -> bool {
        true
    }

    open spec fn eq_spec(&self, other: &Value) -> bool {
        other@ matches ValueModel::Number(b) && model::float_eq(b, self.bits)
    }
}

impl PartialEq<str> for Value {
    fn eq(&self, other: &str) -> (r: bool) {
        value_eq_str(self, other)
    }
}

impl PartialEqSpecImpl<str> for Value {
    open spec fn obeys_eq_spec() -> bool {
        true
    }

    open spec fn eq_spec(&self, other: &str) -> bool {
        self@ == ValueModel::String(other@)
    }
}

impl<'a> PartialEq<&'a str> for Value {
    fn eq(&self, other: &&'a str) -> (r: bool) {
        value_eq_str(self, *other)
    }
}

impl<'a> PartialEqSpecImpl<&'a str> for Value {
    open spec fn obeys_eq_spec() -> bool {
        true
    }

    open spec fn eq_spec(&self, other: &&'a str) -> bool {
        self@ == ValueModel::String((*other)@)
    }
}

impl PartialEq<Value> for str {
    fn eq(&self, other: &Value) -> (r: bool) {
        value_eq_str(other, self)
    }
}

impl PartialEqSpecImpl<Value> for str {
    open spec fn obeys_eq_spec() -> bool {
        true
    }

    open spec fn eq_spec(&self, other: &Value) -> bool {
        other@ == ValueModel::String(self@)
    }
}

impl<'a> PartialEq<Value> for &'a str {
    fn eq(&self, other: &Value) -> (r: bool) {
        value_eq_str(other, *self)
    }
}

impl<'a> PartialEqSpecImpl<Value> for &'a str {
    open spec fn obeys_eq_spec() -> bool {
        true
    }

    open spec fn eq_spec(&self, other: &Value) -> bool {
        other@ == ValueModel::String((*self)@)
    }
}

impl PartialEq<String> for Value {
    fn eq(&self, other: &String) -> (r: bool) {
        value_eq_str(self, other.as_str())
    }
}

impl PartialEqSpecImpl<String> for Value {
    open spec fn obeys_eq_spec() -> bool {
        true
    }

    open spec fn eq_spec(&self, other: &String) -> bool {
        self@ == ValueModel::String(other@)
    }
}

impl PartialEq<Value> for String {
    fn eq(&self, other: &Value) -> (r: bool) {
        value_eq_str(other, self.as_str())
    }
}

impl PartialEqSpecImpl<Value> for String {
    open spec fn obeys_eq_spec() -> bool {
        true
    }

    open spec fn eq_spec(&self, other: &Value) -> bool {
        other@ == ValueModel::String(self@)
    }
}

impl PartialEq<DataMap> for Value {
    fn eq(&self, other: &DataMap) -> (r: bool) {
        value_eq_map(self, other)
    }
}

impl PartialEqSpecImpl<DataMap> for Value {
    open spec fn obeys_eq_spec() -> bool {
        true
    }

    open spec fn eq_spec(&self, other: &DataMap) -> bool {
        self@ matches ValueModel::Mapping(m) && m.len() == other@.len() && model::entries_in(m, other@)
    }
}

impl PartialEq<Value> for DataMap {
    fn eq(&self, other: &Value) -> (r: bool) {
        value_eq_map(other, self)
    }
}

impl PartialEqSpecImpl<Value> for DataMap {
    open spec fn obeys_eq_spec() -> bool {
        true
    }

    open spec fn eq_spec(&self, other: &Value) -> bool {
        other@ matches ValueModel::Mapping(m) && m.len() == self@.len() && model::entries_in(m, self@)
    }
}

impl PartialEq<Vec<u8>> for Value {
    fn eq(&self, other: &Vec<u8>) -> (r: bool) {
        value_eq_bytes(self, other)
    }
}

impl PartialEqSpecImpl<Vec<u8>> for Value {
    open spec fn obeys_eq_spec() -> bool {
        true
    }

    open spec fn eq_spec(&self, other: &Vec<u8>) -> bool {
        self@ == ValueModel::Bytes(other@)
    }
}

impl PartialEq<Value> for Vec<u8> {
    fn eq(&self, other: &Value) -> (r: bool) {
        value_eq_bytes(other, self)
    }
}

impl PartialEqSpecImpl<Value> for Vec<u8> {
    open spec fn obeys_eq_spec() -> bool {
        true
    }

    open spec fn eq_spec(&self, other: &Value) -> bool {
        other@ == ValueModel::Bytes(self@)
    }
}

impl PartialEq<Timestamp> for Value {
    fn eq(&self, other: &Timestamp) -> (r: bool) {
        value_eq_timestamp(self, other)
    }
}

impl PartialEqSpecImpl<Timestamp> for Value {
    open spec fn obeys_eq_spec() -> bool {
        true
    }

    open spec fn eq_spec(&self, other: &Timestamp) -> bool {
        self@ == ValueModel::TimeStamp(other@.0, other@.1)
    }
}

impl PartialEq<Value> for Timestamp {
    fn eq(&self, other: &Value) -> (r: bool) {
        value_eq_timestamp(other, self)
    }
}

impl PartialEqSpecImpl<Value> for Timestamp {
    open spec fn obeys_eq_spec() -> bool {
        true
    }

    open spec fn eq_spec(&self, other: &Value) -> bool {
        other@ == ValueModel::TimeStamp(self@.0, self@.1)
    }
}

} // verus!
