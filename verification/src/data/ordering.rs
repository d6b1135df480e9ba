//! `PartialOrd` for values, and their total order.

use crate::data::model::{self, ValueModel};
use crate::data::order;
use crate::data::value::Value;
use std::cmp::Ordering;
use vstd::prelude::*;
use vstd::std_specs::cmp::PartialOrdSpecImpl;

verus! {

/// The `Ordering` that an order code stands for.
pub open spec fn ordering_of(c: int) -> Ordering {
    if c < 0 {
        Ordering::Less
    } else if c == 0 {
        Ordering::Equal
    } else {
        Ordering::Greater
    }
}

pub open spec fn partial_ordering(c: Option<int>) -> Option<Ordering> {
    match c {
        Some(i) => Some(ordering_of(i)),
        None => None,
    }
}

fn to_ordering(c: i8) -> (r: Ordering)
    ensures
        r == ordering_of(order::code_value(c)),
{
    if c < 0 {
        Ordering::Less
    } else if c == 0 {
        Ordering::Equal
    } else {
        Ordering::Greater
    }
}

impl PartialOrd for Value {
    fn partial_cmp(&self, other: &Value) -> (r: Option<Ordering>) {
        match self.order(other) {
            Some(c) => Some(to_ordering(c)),
            None => None,
        }
    }
}

impl PartialOrdSpecImpl for Value {
    open spec fn obeys_partial_cmp_spec() -> bool {
        true
    }

    open spec fn partial_cmp_spec(&self, other: &Value) -> Option<Ordering> {
        partial_ordering(order::value_order(self@, other@))
    }
}

/// A number that decides the total order by itself: an infinity or a NaN.
pub open spec fn special_number(v: ValueModel) -> bool {
    v matches ValueModel::Number(x) && (order::float_is_infinite(x) || model::float_is_nan(x))
}

/// The total order is defined: the first value is a special number, or the pair is ordered.
pub open spec fn total_order_defined(a: ValueModel, b: ValueModel) -> bool {
    special_number(a) || order::value_order(a, b) is Some
}

/// The total order of values: a negative infinity is below everything, a positive infinity
/// above everything and a NaN below everything; otherwise the partial order decides.
pub open spec fn total_order(a: ValueModel, b: ValueModel) -> Ordering {
    match a {
        ValueModel::Number(x) => if order::float_negative(x) && order::float_is_infinite(x) {
            Ordering::Less
        } else if order::float_is_infinite(x) {
            Ordering::Greater
        } else if model::float_is_nan(x) {
            Ordering::Less
        } else {
            ordering_of(order::value_order(a, b)->0)
        },
        _ => ordering_of(order::value_order(a, b)->0),
    }
}

impl Value {
    /// The total order of two values (see `total_order`), where it is defined.
    pub fn cmp(&self, other: &Value) -> (r: Ordering)
        requires
            total_order_defined(self@, other@),
        ensures
            r == total_order(self@, other@),
    {
        proof {
            crate::data::value::lemma_view(self);
        }
        match self {
            Value::Number(v) => {
                if v.is_sign_negative() && v.is_infinite() {
                    return Ordering::Less;
                } else if v.is_infinite() {
                    return Ordering::Greater;
                } else if v.is_nan() {
                    return Ordering::Less;
                }
            },
            _ => {},
        }
        match self.order(other) {
            Some(c) => to_ordering(c),
            None => Ordering::Equal,
        }
    }
}

} // verus!
