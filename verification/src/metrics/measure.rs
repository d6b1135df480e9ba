//! Counters and gauges.

use vstd::prelude::*;

verus! {

/// A counter; a no-op counter holds nothing and ignores every update.
#[derive(Debug, Clone, Copy)]
pub struct Counter {
    raw: Option<u64>,
}

impl Counter {
    pub closed spec fn spec_value(&self) -> Option<u64> {
        self.raw
    }

    pub fn noop() -> (c: Counter)
        ensures
            c.spec_value() is None,
    {
        Counter { raw: None }
    }

    pub fn from(v: u64) -> (c: Counter)
        ensures
            c.spec_value() == Some(v),
    {
        Counter { raw: Some(v) }
    }

    pub fn get(&self) -> (r: Option<u64>)
        ensures
            r == self.spec_value(),
    {
        self.raw
    }

    /// Adds one (wrapping around at the end of the range of `u64`).
    pub fn increment(&mut self)
        ensures
            final(self).spec_value() == match old(self).spec_value() {
                Some(v) => Some(if v == u64::MAX { 0 } else { (v + 1) as u64 }),
                None => None,
            },
    {
        self.increment_by(1)
    }

    /// Adds `v` (wrapping around at the end of the range of `u64`).
    pub fn increment_by(&mut self, v: u64)
        ensures
            final(self).spec_value() == match old(self).spec_value() {
                Some(c) => Some(((c as int + v as int) % 0x1_0000_0000_0000_0000) as u64),
                None => None,
            },
    {
        if let Some(r) = self.raw {
            self.raw = Some(r.wrapping_add(v));
        }
    }

    /// Raises the counter to `v` when `v` is larger.
    pub fn absolute(&mut self, v: u64)
        ensures
            final(self).spec_value() == match old(self).spec_value() {
                Some(c) => Some(if c < v { v } else { c }),
                None => None,
            },
    {
        if let Some(r) = self.raw {
            self.raw = Some(if r < v { v } else { r });
        }
    }
}

/// A gauge holds a binary64 number by the bit pattern of its encoding; a no-op gauge holds
/// nothing and ignores every update.
#[derive(Debug, Clone, Copy)]
pub struct Gauge {
    raw: Option<u64>,
}

impl Gauge {
    pub closed spec fn spec_bits(&self) -> Option<u64> {
        self.raw
    }

    pub fn noop() -> (g: Gauge)
        ensures
            g.spec_bits() is None,
    {
        Gauge { raw: None }
    }

    /// A gauge holding the number encoded by `bits`.
    pub fn from_bits(bits: u64) -> (g: Gauge)
        ensures
            g.spec_bits() == Some(bits),
    {
        Gauge { raw: Some(bits) }
    }

    /// The encoding of the number held.
    pub fn get_bits(&self) -> (r: Option<u64>)
        ensures
            r == self.spec_bits(),
    {
        self.raw
    }

    /// Replaces the number held (a no-op gauge stays a no-op).
    pub fn set_bits(&mut self, bits: u64)
        ensures
            final(self).spec_bits() == match old(self).spec_bits() {
                Some(_) => Some(bits),
                None => None,
            },
    {
        if self.raw.is_some() {
            self.raw = Some(bits);
        }
    }
}

} // verus!
