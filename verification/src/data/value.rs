//! The value that flows between nodes: scalars, byte strings, sequences and mappings.

use crate::data::model::{self, Entries, ValueModel};
use crate::data::path;
use crate::data::time::Timestamp;
use vstd::prelude::*;

verus! {

/// A binary64 floating point number, held by the bit pattern of its IEEE-754 encoding.
#[derive(Debug, Clone, Copy)]
pub struct FloatBits {
    pub bits: u64,
}

/// The value itself is represented by a scalar, key-value pair, array, etc.
#[derive(Debug)]
pub enum Value {
    Bool(bool),
    Integer(i64),
    Number(FloatBits),
    String(String),
    Bytes(Vec<u8>),
    Null,
    Sequence(Vec<Value>),
    Mapping(DataMap),
    TimeStamp(Timestamp),
}

/// A map of `String` to `Value` that keeps its entries in insertion order.
#[derive(Debug)]
pub struct DataMap {
    entries: Vec<(String, Value)>,
}

pub closed spec fn value_model(v: Value) -> ValueModel
    decreases v,
{
    match v {
        Value::Bool(b) => ValueModel::Bool(b),
        Value::Integer(i) => ValueModel::Integer(i),
        Value::Number(n) => ValueModel::Number(n.bits),
        Value::String(s) => ValueModel::String(s@),
        Value::Bytes(b) => ValueModel::Bytes(b@),
        Value::Null => ValueModel::Null,
        Value::Sequence(xs) => ValueModel::Sequence(seq_model(xs@)),
        Value::Mapping(m) => ValueModel::Mapping(entries_model(m.entries@)),
        Value::TimeStamp(t) => ValueModel::TimeStamp(t@.0, t@.1),
    }
}

pub closed spec fn seq_model(s: Seq<Value>) -> Seq<ValueModel>
    decreases s,
{
    if s.len() == 0 {
        Seq::empty()
    } else {
        seq_model(s.drop_last()).push(value_model(s.last()))
    }
}

pub closed spec fn entries_model(s: Seq<(String, Value)>) -> Entries
    decreases s,
{
    if s.len() == 0 {
        Seq::empty()
    } else {
        entries_model(s.drop_last()).push((s.last().0@, value_model(s.last().1)))
    }
}

impl View for Value {
    type V = ValueModel;

    open spec fn view(&self) -> ValueModel {
        value_model(*self)
    }
}

impl View for DataMap {
    type V = Entries;

    closed spec fn view(&self) -> Entries {
        entries_model(self.entries@)
    }
}

pub proof fn lemma_seq_model(s: Seq<Value>)
    ensures
        seq_model(s).len() == s.len(),
        forall|i: int| 0 <= i < s.len() ==> #[trigger] seq_model(s)[i] == s[i]@,
    decreases s.len(),
{
    if s.len() > 0 {
        lemma_seq_model(s.drop_last());
        assert forall|i: int| 0 <= i < s.len() implies #[trigger] seq_model(s)[i] == s[i]@ by {
            if i < s.len() - 1 {
                assert(s.drop_last()[i] == s[i]);
            }
        }
    }
}

pub proof fn lemma_entries_model(s: Seq<(String, Value)>)
    ensures
        entries_model(s).len() == s.len(),
        forall|i: int|
            0 <= i < s.len() ==> #[trigger] entries_model(s)[i] == (s[i].0@, s[i].1@),
    decreases s.len(),
{
    if s.len() > 0 {
        lemma_entries_model(s.drop_last());
        assert forall|i: int| 0 <= i < s.len() implies #[trigger] entries_model(s)[i] == (
            s[i].0@,
            s[i].1@,
        ) by {
            if i < s.len() - 1 {
                assert(s.drop_last()[i] == s[i]);
            }
        }
    }
}

pub proof fn lemma_entries_model_ext(a: Seq<(String, Value)>, b: Seq<(String, Value)>)
    requires
        a.len() == b.len(),
        forall|i: int| 0 <= i < a.len() ==> a[i].0@ == b[i].0@ && a[i].1@ == b[i].1@,
    ensures
        entries_model(a) == entries_model(b),
{
    lemma_entries_model(a);
    lemma_entries_model(b);
    assert(entries_model(a) =~= entries_model(b));
}

/// The models of a sequence of values, element by element.
pub open spec fn models(xs: Seq<Value>) -> Seq<ValueModel> {
    Seq::new(xs.len(), |i: int| xs[i]@)
}

/// Element-wise equality of two byte strings.
pub fn bytes_eq(a: &Vec<u8>, b: &Vec<u8>) -> (r: bool)
    ensures
        r == (a@ == b@),
{
    if a.len() != b.len() {
        return false;
    }
    let n = a.len();
    let mut i: usize = 0;
    while i < n
        invariant
            n == a@.len(),
            n == b@.len(),
            i <= n,
            forall|j: int| 0 <= j < i ==> a@[j] == b@[j],
        decreases n - i,
    {
        if a[i] != b[i] {
            return false;
        }
        i = i + 1;
    }
    proof {
        assert(a@ =~= b@);
    }
    true
}

impl FloatBits {
    /// Whether the encoded number is a NaN.
    pub fn is_nan(&self) -> (b: bool)
        ensures
            b == model::float_is_nan(self.bits),
    {
        (self.bits >> 52u64) & 0x7ffu64 == 0x7ffu64 && self.bits & 0xf_ffff_ffff_ffffu64 != 0
    }

    /// IEEE-754 equality: NaN equals nothing, and the two zeros are equal.
    pub fn ieee_eq(&self, other: &FloatBits) -> (b: bool)
        ensures
            b == model::float_eq(self.bits, other.bits),
    {
        !self.is_nan() && !other.is_nan() && (self.bits == other.bits || (self.bits
            & 0x7fff_ffff_ffff_ffffu64 == 0 && other.bits & 0x7fff_ffff_ffff_ffffu64 == 0))
    }
}

/// The model of an optional value.
pub open spec fn opt_model(o: Option<Value>) -> Option<ValueModel> {
    match o {
        Some(v) => Some(v@),
        None => None,
    }
}

/// What the model of each kind of value is.
pub proof fn lemma_view(v: &Value)
    ensures
        match *v {
            Value::Bool(b) => v@ == ValueModel::Bool(b),
            Value::Integer(i) => v@ == ValueModel::Integer(i),
            Value::Number(n) => v@ == ValueModel::Number(n.bits),
            Value::String(s) => v@ == ValueModel::String(s@),
            Value::Bytes(b) => v@ == ValueModel::Bytes(b@),
            Value::Null => v@ == ValueModel::Null,
            Value::Sequence(xs) => v@ == ValueModel::Sequence(models(xs@)),
            Value::Mapping(m) => v@ == ValueModel::Mapping(m@),
            Value::TimeStamp(t) => v@ == ValueModel::TimeStamp(t@.0, t@.1),
        },
{
    match *v {
        Value::Sequence(xs) => {
            lemma_seq_model(xs@);
            assert(seq_model(xs@) =~= models(xs@));
        },
        _ => {},
    }
}

pub proof fn lemma_entries_model_update(s: Seq<(String, Value)>, i: int, e: (String, Value))
    requires
        0 <= i < s.len(),
    ensures
        entries_model(s.update(i, e)) == entries_model(s).update(i, (e.0@, e.1@)),
{
    lemma_entries_model(s);
    lemma_entries_model(s.update(i, e));
    assert(entries_model(s.update(i, e)) =~= entries_model(s).update(i, (e.0@, e.1@)));
}

impl DataMap {
    /// Creates an empty map.
    pub fn new() -> (m: DataMap)
        ensures
            m@ == Seq::<(Seq<char>, ValueModel)>::empty(),
    {
        let m = DataMap { entries: Vec::new() };
        proof {
            lemma_entries_model(m.entries@);
        }
        m
    }

    /// Creates an empty map with room for `capacity` entries.
    pub fn with_capacity(capacity: usize) -> (m: DataMap)
        ensures
            m@ == Seq::<(Seq<char>, ValueModel)>::empty(),
    {
        let m = DataMap { entries: Vec::with_capacity(capacity) };
        proof {
            lemma_entries_model(m.entries@);
        }
        m
    }

    /// Removes every entry.
    pub fn clear(&mut self)
        ensures
            final(self)@ == Seq::<(Seq<char>, ValueModel)>::empty(),
    {
        self.entries.clear();
        proof {
            lemma_entries_model(self.entries@);
        }
    }

    pub fn len(&self) -> (n: usize)
        ensures
            n == self@.len(),
    {
        proof {
            lemma_entries_model(self.entries@);
        }
        self.entries.len()
    }

    pub fn is_empty(&self) -> (b: bool)
        ensures
            b == (self@.len() == 0),
    {
        proof {
            lemma_entries_model(self.entries@);
        }
        self.entries.len() == 0
    }

    /// Position of the first entry with key `key`.
    fn find(&self, key: &str) -> (r: Option<usize>)
        ensures
            match r {
                Some(i) => model::key_index(self@, key@) == i,
                None => model::key_index(self@, key@) == -1,
            },
    {
        proof {
            lemma_entries_model(self.entries@);
        }
        let k = key.to_owned();
        let n = self.entries.len();
        let mut i: usize = 0;
        while i < n
            invariant
                n == self.entries@.len(),
                n == self@.len(),
                k@ == key@,
                i <= n,
                forall|j: int| 0 <= j < i ==> self@[j].0 != key@,
                forall|j: int|
                    0 <= j < self.entries@.len() ==> #[trigger] self@[j] == (
                        self.entries@[j].0@,
                        self.entries@[j].1@,
                    ),
            decreases n - i,
        {
            if self.entries[i].0 == k {
                proof {
                    model::lemma_key_index_at(self@, key@, i as int);
                }
                return Some(i);
            }
            i = i + 1;
        }
        proof {
            model::lemma_key_index_absent(self@, key@);
        }
        None
    }

    /// The value stored under `key`.
    pub fn get(&self, key: &str) -> (r: Option<&Value>)
        ensures
            match r {
                Some(v) => model::map_get(self@, key@) == Some(v@),
                None => model::map_get(self@, key@) is None,
            },
    {
        proof {
            lemma_entries_model(self.entries@);
        }
        proof {
            model::lemma_key_index(self@, key@);
        }
        match self.find(key) {
            Some(i) => Some(&self.entries[i].1),
            None => None,
        }
    }

    pub fn contains_key(&self, key: &str) -> (b: bool)
        ensures
            b == (model::map_get(self@, key@) is Some),
    {
        self.find(key).is_some()
    }

    /// Inserts a key-value pair. An existing key keeps its position and its old value is
    /// returned; a new key is appended.
    pub fn insert(&mut self, key: String, value: Value) -> (r: Option<Value>)
        ensures
            final(self)@ == model::map_insert(old(self)@, key@, value@),
            match r {
                Some(v) => model::map_get(old(self)@, key@) == Some(v@),
                None => model::map_get(old(self)@, key@) is None,
            },
            model::keys_distinct(old(self)@) ==> model::keys_distinct(final(self)@),
    {
        proof {
            lemma_entries_model(self.entries@);
            model::lemma_key_index(self@, key@);
        }
        match self.find(key.as_str()) {
            Some(i) => {
                let ghost before = self.entries@;
                let (k, old_value) = self.entries.remove(i);
                self.entries.insert(i, (k, value));
                proof {
                    assert(self.entries@ =~= before.update(i as int, (k, value)));
                    lemma_entries_model(self.entries@);
                    assert(self@ =~= model::map_insert(old(self)@, key@, value@));
                }
                Some(old_value)
            },
            None => {
                self.entries.push((key, value));
                proof {
                    lemma_entries_model(self.entries@);
                    assert(self@ =~= model::map_insert(old(self)@, key@, value@));
                    model::lemma_key_index(old(self)@, key@);
                }
                None
            },
        }
    }

    /// Removes `key`; the last entry takes the place of the removed one.
    pub fn remove(&mut self, key: &str) -> (r: Option<Value>)
        ensures
            final(self)@ == model::map_remove(old(self)@, key@),
            match r {
                Some(v) => model::map_get(old(self)@, key@) == Some(v@),
                None => model::map_get(old(self)@, key@) is None,
            },
            model::keys_distinct(old(self)@) ==> model::keys_distinct(final(self)@),
    {
        proof {
            lemma_entries_model(self.entries@);
            model::lemma_key_index(self@, key@);
        }
        match self.find(key) {
            Some(i) => {
                let ghost before = self.entries@;
                let (_k, v) = self.entries.swap_remove(i);
                proof {
                    lemma_entries_model(self.entries@);
                    assert(self@ =~= model::map_remove(old(self)@, key@));
                    if model::keys_distinct(old(self)@) {
                        let n = old(self)@.len();
                        assert forall|a: int, b: int|
                            0 <= a < self@.len() && 0 <= b < self@.len() && a != b implies self@[a].0
                            != self@[b].0 by {
                            let a0 = if a == i { n - 1 } else { a };
                            let b0 = if b == i { n - 1 } else { b };
                            assert(self@[a] == old(self)@[a0]);
                            assert(self@[b] == old(self)@[b0]);
                        }
                    }
                }
                Some(v)
            },
            None => None,
        }
    }

    /// The key and value of the entry at position `i` (in insertion order).
    pub fn entry_at(&self, i: usize) -> (r: (&String, &Value))
        requires
            i < self@.len(),
        ensures
            r.0@ == self@[i as int].0,
            r.1@ == self@[i as int].1,
    {
        proof {
            lemma_entries_model(self.entries@);
        }
        let e = &self.entries[i];
        (&e.0, &e.1)
    }

    /// The keys in insertion order.
    pub fn keys(&self) -> (r: Vec<&String>)
        ensures
            r@.len() == self@.len(),
            forall|i: int| 0 <= i < r@.len() ==> r@[i]@ == self@[i].0,
    {
        proof {
            lemma_entries_model(self.entries@);
        }
        let mut r: Vec<&String> = Vec::new();
        let n = self.entries.len();
        for i in 0..n
            invariant
                n == self.entries@.len(),
                n == self@.len(),
                r@.len() == i,
                forall|j: int| 0 <= j < i ==> r@[j]@ == self@[j].0,
                forall|j: int|
                    0 <= j < self.entries@.len() ==> #[trigger] self@[j] == (
                        self.entries@[j].0@,
                        self.entries@[j].1@,
                    ),
        {
            r.push(&self.entries[i].0);
        }
        r
    }

    /// The values in insertion order.
    pub fn values(&self) -> (r: Vec<&Value>)
        ensures
            r@.len() == self@.len(),
            forall|i: int| 0 <= i < r@.len() ==> r@[i]@ == self@[i].1,
    {
        proof {
            lemma_entries_model(self.entries@);
        }
        let mut r: Vec<&Value> = Vec::new();
        let n = self.entries.len();
        for i in 0..n
            invariant
                n == self.entries@.len(),
                n == self@.len(),
                r@.len() == i,
                forall|j: int| 0 <= j < i ==> r@[j]@ == self@[j].1,
                forall|j: int|
                    0 <= j < self.entries@.len() ==> #[trigger] self@[j] == (
                        self.entries@[j].0@,
                        self.entries@[j].1@,
                    ),
        {
            r.push(&self.entries[i].1);
        }
        r
    }

    /// The entries in insertion order.
    pub fn iter(&self) -> (r: Vec<(&String, &Value)>)
        ensures
            r@.len() == self@.len(),
            forall|i: int| 0 <= i < r@.len() ==> r@[i].0@ == self@[i].0 && r@[i].1@ == self@[i].1,
    {
        proof {
            lemma_entries_model(self.entries@);
        }
        let mut r: Vec<(&String, &Value)> = Vec::new();
        let n = self.entries.len();
        for i in 0..n
            invariant
                n == self.entries@.len(),
                n == self@.len(),
                r@.len() == i,
                forall|j: int| 0 <= j < i ==> r@[j].0@ == self@[j].0 && r@[j].1@ == self@[j].1,
                forall|j: int|
                    0 <= j < self.entries@.len() ==> #[trigger] self@[j] == (
                        self.entries@[j].0@,
                        self.entries@[j].1@,
                    ),
        {
            let e = &self.entries[i];
            r.push((&e.0, &e.1));
        }
        r
    }

    /// The value stored under `key`, which must be present.
    pub fn index(&self, key: &str) -> (r: &Value)
        requires
            model::map_get(self@, key@) is Some,
        ensures
            model::map_get(self@, key@) == Some(r@),
    {
        self.get(key).unwrap()
    }

    /// The value stored under `key`, to be changed in place.
    pub fn get_mut(&mut self, key: &str) -> (r: Option<&mut Value>)
        ensures
            match r {
                Some(v) => {
                    &&& model::map_get(old(self)@, key@) == Some((*v)@)
                    &&& final(self)@ == model::map_insert(old(self)@, key@, (*final(v))@)
                },
                None => {
                    &&& model::map_get(old(self)@, key@) is None
                    &&& final(self)@ == old(self)@
                },
            },
    {
        proof {
            lemma_entries_model(self.entries@);
            model::lemma_key_index(self@, key@);
        }
        match self.find(key) {
            Some(i) => {
                let ghost mid = self.entries@;
                let e = &mut self.entries[i];
                let r = &mut e.1;
                proof {
                    lemma_entries_model_update(mid, i as int, (mid[i as int].0, *final(r)));
                }
                Some(r)
            },
            None => None,
        }
    }

    /// The entries in insertion order, taken out of the map.
    pub fn into_entries(self) -> (r: Vec<(String, Value)>)
        ensures
            r@.len() == self@.len(),
            forall|i: int| 0 <= i < r@.len() ==> r@[i].0@ == self@[i].0 && r@[i].1@ == self@[i].1,
    {
        proof {
            lemma_entries_model(self.entries@);
        }
        self.entries
    }

    /// The value under `key`, after inserting `default` there when the key is absent.
    pub fn get_or_insert(&mut self, key: String, default: Value) -> (r: &mut Value)
        ensures
            ({
                let base = if model::map_get(old(self)@, key@) is Some {
                    old(self)@
                } else {
                    old(self)@.push((key@, default@))
                };
                &&& Some((*r)@) == model::map_get(base, key@)
                &&& final(self)@ == model::map_insert(base, key@, (*final(r))@)
            }),
    {
        proof {
            lemma_entries_model(self.entries@);
            model::lemma_key_index(self@, key@);
        }
        let i = match self.find(key.as_str()) {
            Some(i) => i,
            None => {
                self.entries.push((key, default));
                proof {
                    lemma_entries_model(self.entries@);
                    model::lemma_key_index_absent(old(self)@, key@);
                    assert(self@ =~= old(self)@.push((key@, default@)));
                    model::lemma_key_index_at(self@, key@, self@.len() - 1);
                }
                self.entries.len() - 1
            },
        };
        let ghost mid = self.entries@;
        proof {
            lemma_entries_model(mid);
        }
        let e = &mut self.entries[i];
        let r = &mut e.1;
        proof {
            lemma_entries_model_update(mid, i as int, (mid[i as int].0, *final(r)));
        }
        r
    }

    /// Removes and returns the entry at position `i`; later entries move one place forward.
    fn take_at(&mut self, i: usize) -> (r: (String, Value))
        requires
            i < old(self)@.len(),
        ensures
            final(self)@ == old(self)@.remove(i as int),
            r.0@ == old(self)@[i as int].0,
            r.1@ == old(self)@[i as int].1,
    {
        proof {
            lemma_entries_model(self.entries@);
        }
        let r = self.entries.remove(i);
        proof {
            lemma_entries_model(self.entries@);
            assert(self@ =~= old(self)@.remove(i as int));
        }
        r
    }

    /// Puts an entry at position `i`; later entries move one place back.
    fn put_at(&mut self, i: usize, key: String, value: Value)
        requires
            i <= old(self)@.len(),
        ensures
            final(self)@ == old(self)@.insert(i as int, (key@, value@)),
    {
        proof {
            lemma_entries_model(self.entries@);
        }
        self.entries.insert(i, (key, value));
        proof {
            lemma_entries_model(self.entries@);
            assert(self@ =~= old(self)@.insert(i as int, (key@, value@)));
        }
    }
}

} // verus!

verus! {

impl Value {
    pub fn is_map(&self) -> (b: bool)
        ensures
            b == (self@ is Mapping),
    {
        proof {
            lemma_view(self);
        }
        self.as_map().is_some()
    }

    pub fn as_map(&self) -> (r: Option<&DataMap>)
        ensures
            match r {
                Some(m) => self@ == ValueModel::Mapping(m@),
                None => !(self@ is Mapping),
            },
    {
        proof {
            lemma_view(self);
        }
        match self {
            Value::Mapping(m) => Some(m),
            _ => None,
        }
    }

    pub fn is_vec(&self) -> (b: bool)
        ensures
            b == (self@ is Sequence),
    {
        proof {
            lemma_view(self);
        }
        self.as_vec().is_some()
    }

    pub fn as_vec(&self) -> (r: Option<&Vec<Value>>)
        ensures
            match r {
                Some(xs) => self@ == ValueModel::Sequence(models(xs@)),
                None => !(self@ is Sequence),
            },
    {
        proof {
            lemma_view(self);
        }
        match self {
            Value::Sequence(xs) => Some(xs),
            _ => None,
        }
    }

    pub fn as_bool(&self) -> (r: Option<bool>)
        ensures
            match r {
                Some(b) => self@ == ValueModel::Bool(b),
                None => !(self@ is Bool),
            },
    {
        proof {
            lemma_view(self);
        }
        match self {
            Value::Bool(b) => Some(*b),
            _ => None,
        }
    }

    pub fn is_true(&self) -> (b: bool)
        ensures
            b == (self@ == ValueModel::Bool(true)),
    {
        proof {
            lemma_view(self);
        }
        match self {
            Value::Bool(b) => *b,
            _ => false,
        }
    }

    pub fn is_false(&self) -> (b: bool)
        ensures
            b == (self@ == ValueModel::Bool(false)),
    {
        proof {
            lemma_view(self);
        }
        match self {
            Value::Bool(b) => !*b,
            _ => false,
        }
    }

    pub fn is_number(&self) -> (b: bool)
        ensures
            b == (self@ is Number),
    {
        proof {
            lemma_view(self);
        }
        match self {
            Value::Number(_) => true,
            _ => false,
        }
    }

    pub fn is_integer(&self) -> (b: bool)
        ensures
            b == (self@ is Integer),
    {
        proof {
            lemma_view(self);
        }
        match self {
            Value::Integer(_) => true,
            _ => false,
        }
    }

    pub fn is_string(&self) -> (b: bool)
        ensures
            b == (self@ is String),
    {
        proof {
            lemma_view(self);
        }
        self.as_str().is_some()
    }

    pub fn as_str(&self) -> (r: Option<&str>)
        ensures
            match r {
                Some(s) => self@ == ValueModel::String(s@),
                None => !(self@ is String),
            },
    {
        proof {
            lemma_view(self);
        }
        match self {
            Value::String(s) => Some(s.as_str()),
            _ => None,
        }
    }

    pub fn is_u32(&self) -> (b: bool)
        ensures
            b == (self@ matches ValueModel::Integer(i) && 0 <= i <= u32::MAX),
    {
        self.as_u32().is_some()
    }

    /// The integer as `u32`, when it is one and lies in the range of `u32`.
    pub fn as_u32(&self) -> (r: Option<u32>)
        ensures
            match r {
                Some(n) => self@ == ValueModel::Integer(n as i64),
                None => !(self@ matches ValueModel::Integer(i) && 0 <= i <= u32::MAX),
            },
    {
        proof {
            lemma_view(self);
        }
        match self {
            Value::Integer(v) => if 0 <= *v && *v <= 0xffff_ffff {
                Some(*v as u32)
            } else {
                None
            },
            _ => None,
        }
    }

    pub fn is_u64(&self) -> (b: bool)
        ensures
            b == (self@ matches ValueModel::Integer(i) && 0 <= i),
    {
        self.as_u64().is_some()
    }

    /// The integer as `u64`, when it is one and not negative.
    pub fn as_u64(&self) -> (r: Option<u64>)
        ensures
            match r {
                Some(n) => self@ == ValueModel::Integer(n as i64) && n <= i64::MAX,
                None => !(self@ matches ValueModel::Integer(i) && 0 <= i),
            },
    {
        proof {
            lemma_view(self);
        }
        match self {
            Value::Integer(v) => if 0 <= *v {
                Some(*v as u64)
            } else {
                None
            },
            _ => None,
        }
    }

    pub fn is_bytes(&self) -> (b: bool)
        ensures
            b == (self@ is Bytes),
    {
        proof {
            lemma_view(self);
        }
        self.as_bytes().is_some()
    }

    pub fn as_bytes(&self) -> (r: Option<&Vec<u8>>)
        ensures
            match r {
                Some(b) => self@ == ValueModel::Bytes(b@),
                None => !(self@ is Bytes),
            },
    {
        proof {
            lemma_view(self);
        }
        match self {
            Value::Bytes(b) => Some(b),
            _ => None,
        }
    }

    pub fn is_timestamp(&self) -> (b: bool)
        ensures
            b == (self@ is TimeStamp),
    {
        proof {
            lemma_view(self);
        }
        self.as_timestamp().is_some()
    }

    pub fn as_timestamp(&self) -> (r: Option<Timestamp>)
        ensures
            match r {
                Some(t) => self@ == ValueModel::TimeStamp(t@.0, t@.1),
                None => !(self@ is TimeStamp),
            },
    {
        proof {
            lemma_view(self);
        }
        match self {
            Value::TimeStamp(t) => Some(*t),
            _ => None,
        }
    }

    /// Whether both values are of the same kind.
    pub fn is_same_type(&self, other: &Value) -> (b: bool)
        ensures
            b == model::same_kind(self@, other@),
    {
        proof {
            lemma_view(self);
            lemma_view(other);
        }
        match (self, other) {
            (Value::Bool(_), Value::Bool(_)) => true,
            (Value::Integer(_), Value::Integer(_)) => true,
            (Value::Number(_), Value::Number(_)) => true,
            (Value::String(_), Value::String(_)) => true,
            (Value::Bytes(_), Value::Bytes(_)) => true,
            (Value::Null, Value::Null) => true,
            (Value::Sequence(_), Value::Sequence(_)) => true,
            (Value::Mapping(_), Value::Mapping(_)) => true,
            (Value::TimeStamp(_), Value::TimeStamp(_)) => true,
            _ => false,
        }
    }

    /// Inserts `new` under `key` followed by the tokens `rest[i..]`, starting at `v`.
    fn insert_at(v: Value, key: String, rest: &Vec<String>, i: usize, new: Value) -> (r: (
        Value,
        Option<Value>,
    ))
        requires
            i <= rest@.len(),
        ensures
            (r.0@, opt_model(r.1)) == model::insert_at(
                v@,
                key@,
                path::texts(rest@).skip(i as int),
                new@,
            ),
        decreases rest@.len() - i,
    {
        let ghost toks = path::texts(rest@).skip(i as int);
        proof {
            lemma_view(&v);
        }
        if i == rest.len() {
            proof {
                assert(toks.len() == 0);
            }
            match v {
                Value::Mapping(mut m) => {
                    let old = m.insert(key, new);
                    proof {
                        lemma_view(&Value::Mapping(m));
                    }
                    (Value::Mapping(m), old)
                },
                _ => {
                    let mut m = DataMap::new();
                    let _ = m.insert(key, new);
                    proof {
                        lemma_view(&Value::Mapping(m));
                        model::lemma_key_index_absent(Seq::<(Seq<char>, ValueModel)>::empty(), key@);
                        assert(m@ =~= seq![(key@, new@)]);
                    }
                    (Value::Mapping(m), None)
                },
            }
        } else {
            let next_key = rest[i].clone();
            proof {
                assert(toks[0] == next_key@);
                assert(toks.drop_first() =~= path::texts(rest@).skip(i as int + 1));
            }
            match v {
                Value::Mapping(mut m) => {
                    proof {
                        model::lemma_key_index(m@, key@);
                    }
                    match m.find(key.as_str()) {
                        Some(j) => {
                            let ghost m0 = m@;
                            let (k, child) = m.take_at(j);
                            let (c2, old) = Value::insert_at(child, next_key, rest, i + 1, new);
                            m.put_at(j, k, c2);
                            proof {
                                assert(m@ =~= model::map_insert(m0, key@, c2@));
                                lemma_view(&Value::Mapping(m));
                            }
                            (Value::Mapping(m), old)
                        },
                        None => {
                            let empty = Value::Mapping(DataMap::new());
                            proof {
                                lemma_view(&empty);
                            }
                            let (c2, old) = Value::insert_at(empty, next_key, rest, i + 1, new);
                            let n = m.len();
                            let ghost m0 = m@;
                            m.put_at(n, key, c2);
                            proof {
                                assert(m@ =~= model::map_insert(m0, key@, c2@));
                                lemma_view(&Value::Mapping(m));
                            }
                            (Value::Mapping(m), old)
                        },
                    }
                },
                _ => {
                    let empty = Value::Mapping(DataMap::new());
                    proof {
                        lemma_view(&empty);
                    }
                    let (c2, _) = Value::insert_at(empty, next_key, rest, i + 1, new);
                    let mut m = DataMap::new();
                    let _ = m.insert(key, c2);
                    proof {
                        lemma_view(&Value::Mapping(m));
                        model::lemma_key_index_absent(Seq::<(Seq<char>, ValueModel)>::empty(), key@);
                        assert(m@ =~= seq![(key@, c2@)]);
                    }
                    (Value::Mapping(m), None)
                },
            }
        }
    }

    /// Inserts a value at a path whose tokens are separated by `.`, creating mappings on
    /// the way. Returns the value that was stored there before, if any.
    ///
    /// A node on the way that is not a mapping is replaced by a mapping, so the value always
    /// ends up at the whole path; every missing level is created. The empty path changes
    /// nothing.
    pub fn insert_by_path(&mut self, path: &str, v: Value) -> (r: Option<Value>)
        ensures
            (final(self)@, opt_model(r)) == model::insert_by_path(old(self)@, path@, v@),
    {
        if path.unicode_len() == 0 {
            return None;
        }
        let tokens = path::split_path(path);
        proof {
            model::lemma_split_path_nonempty(path@);
            assert(path::texts(tokens@).skip(1) =~= path::texts(tokens@).drop_first());
        }
        let first = tokens[0].clone();
        let mut cur = Value::Null;
        std::mem::swap(self, &mut cur);
        let (nv, old) = Value::insert_at(cur, first, &tokens, 1, v);
        *self = nv;
        old
    }

    /// Structural equality (see `model::value_eq`): numbers compare as IEEE-754 numbers and
    /// mappings compare without regard to the order of their entries.
    pub fn equals(&self, other: &Value) -> (r: bool)
        ensures
            r == model::value_eq(self@, other@),
        decreases self,
    {
        proof {
            lemma_view(self);
            lemma_view(other);
        }
        match self {
            Value::Bool(x) => match other {
                Value::Bool(y) => *x == *y,
                _ => false,
            },
            Value::Integer(x) => match other {
                Value::Integer(y) => *x == *y,
                _ => false,
            },
            Value::Number(x) => match other {
                Value::Number(y) => x.ieee_eq(y),
                _ => false,
            },
            Value::String(x) => match other {
                Value::String(y) => *x == *y,
                _ => false,
            },
            Value::Bytes(x) => match other {
                Value::Bytes(y) => bytes_eq(x, y),
                _ => false,
            },
            Value::Null => match other {
                Value::Null => true,
                _ => false,
            },
            Value::TimeStamp(x) => match other {
                Value::TimeStamp(y) => x.same_instant(y),
                _ => false,
            },
            Value::Sequence(xs) => match other {
                Value::Sequence(ys) => {
                    if xs.len() != ys.len() {
                        return false;
                    }
                    let ghost a = models(xs@);
                    let ghost b = models(ys@);
                    proof {
                        model::lemma_seqs_eq(a, b);
                    }
                    let n = xs.len();
                    let mut i: usize = 0;
                    while i < n
                        invariant
                            n == xs@.len(),
                            n == ys@.len(),
                            a == models(xs@),
                            b == models(ys@),
                            self@ == ValueModel::Sequence(a),
                            *self == Value::Sequence(*xs),
                            other@ == ValueModel::Sequence(b),
                            model::seqs_eq(a, b) <==> forall|j: int|
                                0 <= j < a.len() ==> model::value_eq(#[trigger] a[j], b[j]),
                            i <= n,
                            forall|j: int| 0 <= j < i ==> model::value_eq(#[trigger] a[j], b[j]),
                        decreases n - i,
                    {
                        proof {
                            assert(a[i as int] == xs@[i as int]@);
                            assert(b[i as int] == ys@[i as int]@);
                            assert(decreases_to!(*self => *xs));
                            assert(decreases_to!(*xs => xs@));
                            assert(decreases_to!(xs@ => xs@[i as int]));
                            assert(decreases_to!(*self => xs@[i as int]));
                        }
                        if !xs[i].equals(&ys[i]) {
                            return false;
                        }
                        i = i + 1;
                    }
                    true
                },
                _ => false,
            },
            Value::Mapping(m) => match other {
                Value::Mapping(o) => {
                    proof {
                        lemma_entries_model(m.entries@);
                        model::lemma_entries_in(m@, o@);
                    }
                    if m.entries.len() != o.len() {
                        return false;
                    }
                    let n = m.entries.len();
                    let mut i: usize = 0;
                    while i < n
                        invariant
                            n == m.entries@.len(),
                            n == m@.len(),
                            self@ == ValueModel::Mapping(m@),
                            *self == Value::Mapping(*m),
                            other@ == ValueModel::Mapping(o@),
                            m@.len() == o@.len(),
                            model::entries_in(m@, o@) <==> forall|j: int|
                                0 <= j < m@.len() ==> model::entry_found_equal(o@, #[trigger] m@[j]),
                            i <= n,
                            forall|j: int|
                                0 <= j < m.entries@.len() ==> #[trigger] m@[j] == (
                                    m.entries@[j].0@,
                                    m.entries@[j].1@,
                                ),
                            forall|j: int|
                                0 <= j < i ==> model::entry_found_equal(o@, #[trigger] m@[j]),
                        decreases n - i,
                    {
                        let e = &m.entries[i];
                        proof {
                            assert(decreases_to!(*self => *m));
                            assert(decreases_to!(*m => m.entries));
                            assert(decreases_to!(m.entries => m.entries@));
                            assert(decreases_to!(m.entries@ => m.entries@[i as int]));
                            assert(decreases_to!(m.entries@[i as int] => m.entries@[i as int].1));
                            assert(decreases_to!(*self => m.entries@[i as int].1));
                        }
                        proof {
                            assert(m@[i as int] == (e.0@, e.1@));
                        }
                        match o.get(e.0.as_str()) {
                            Some(w) => {
                                if !e.1.equals(w) {
                                    proof {
                                        assert(!model::entry_found_equal(o@, m@[i as int]));
                                    }
                                    return false;
                                }
                            },
                            None => {
                                proof {
                                    assert(!model::entry_found_equal(o@, m@[i as int]));
                                }
                                return false;
                            },
                        }
                        i = i + 1;
                    }
                    true
                },
                _ => false,
            },
        }
    }

    /// Looks up a value by path; the path is a text whose tokens are separated by `.`.
    /// A token selects the entry of a mapping by key, or the element of a sequence by index.
    pub fn path(&self, path: &str) -> (r: Option<&Value>)
        ensures
            match r {
                Some(v) => model::value_at_path(self@, path@) == Some(v@),
                None => model::value_at_path(self@, path@) is None,
            },
    {
        if path.unicode_len() == 0 {
            return Some(self);
        }
        let tokens = path::split_path(path);
        let ghost toks = path::texts(tokens@);
        let n = tokens.len();
        let mut target: &Value = self;
        let mut i: usize = 0;
        proof {
            assert(toks.skip(0) =~= toks);
        }
        while i < n
            invariant
                n == tokens@.len(),
                toks == path::texts(tokens@),
                toks == model::split_path(path@),
                path@.len() > 0,
                i <= n,
                model::path_lookup(self@, toks) == model::path_lookup(target@, toks.skip(i as int)),
            decreases n - i,
        {
            proof {
                lemma_view(target);
                assert(toks.skip(i as int)[0] == tokens@[i as int]@);
                assert(toks.skip(i as int).drop_first() =~= toks.skip(i as int + 1));
            }
            let token = tokens[i].as_str();
            let ghost rest = toks.skip(i as int);
            assert(token@ == rest[0]);
            let next: Option<&Value> = match target {
                Value::Mapping(m) => m.get(token),
                Value::Sequence(xs) => match path::parse_index(token) {
                    Some(x) => if x < xs.len() {
                        proof {
                            assert(models(xs@)[x as int] == xs@[x as int]@);
                        }
                        Some(&xs[x])
                    } else {
                        None
                    },
                    None => None,
                },
                _ => None,
            };
            proof {
                let nm: Option<ValueModel> = match next {
                    Some(t) => Some(t@),
                    None => None,
                };
                assert(model::path_lookup(target@, rest) == match nm {
                    Some(nv) => model::path_lookup(nv, rest.drop_first()),
                    None => None,
                });
            }
            match next {
                Some(t) => {
                    target = t;
                },
                None => {
                    return None;
                },
            }
            i = i + 1;
        }
        proof {
            assert(toks.skip(n as int).len() == 0);
        }
        Some(target)
    }
}

} // verus!

verus! {

impl Value {
    /// A copy of the value with the same model.
    pub fn deep_copy(&self) -> (r: Value)
        ensures
            r@ == self@,
        decreases self,
    {
        proof {
            lemma_view(self);
        }
        match self {
            Value::Bool(b) => Value::Bool(*b),
            Value::Integer(i) => Value::Integer(*i),
            Value::Number(n) => Value::Number(*n),
            Value::String(s) => Value::String(s.clone()),
            Value::Bytes(b) => Value::Bytes(b.clone()),
            Value::Null => Value::Null,
            Value::TimeStamp(t) => Value::TimeStamp(*t),
            Value::Sequence(xs) => {
                let mut out: Vec<Value> = Vec::with_capacity(xs.len());
                let n = xs.len();
                let mut i: usize = 0;
                while i < n
                    invariant
                        n == xs@.len(),
                        *self == Value::Sequence(*xs),
                        i <= n,
                        out@.len() == i,
                        forall|j: int| 0 <= j < i ==> (#[trigger] out@[j])@ == xs@[j]@,
                    decreases n - i,
                {
                    proof {
                        assert(*self == Value::Sequence(*xs));
                        assert((*self)->Sequence_0 == *xs);
                        assert(decreases_to!(*self => (*self)->Sequence_0));
                        assert(decreases_to!(*self => *xs));
                        assert(decreases_to!(*xs => xs@));
                        assert(decreases_to!(xs@ => xs@[i as int]));
                    }
                    out.push(xs[i].deep_copy());
                    i = i + 1;
                }
                let r = Value::Sequence(out);
                proof {
                    lemma_view(&r);
                    assert(models(out@) =~= models(xs@));
                }
                r
            },
            Value::Mapping(m) => {
                let mut out: Vec<(String, Value)> = Vec::with_capacity(m.entries.len());
                let n = m.entries.len();
                let mut i: usize = 0;
                while i < n
                    invariant
                        n == m.entries@.len(),
                        *self == Value::Mapping(*m),
                        i <= n,
                        out@.len() == i,
                        forall|j: int|
                            0 <= j < i ==> (#[trigger] out@[j]).0@ == m.entries@[j].0@ && out@[j].1@
                                == m.entries@[j].1@,
                    decreases n - i,
                {
                    proof {
                        assert(*self == Value::Mapping(*m));
                        assert((*self)->Mapping_0 == *m);
                        assert(decreases_to!(*self => (*self)->Mapping_0));
                        assert(decreases_to!(*self => *m));
                        assert(decreases_to!(*m => m.entries));
                        assert(decreases_to!(m.entries => m.entries@));
                        assert(decreases_to!(m.entries@ => m.entries@[i as int]));
                        assert(decreases_to!(m.entries@[i as int] => m.entries@[i as int].1));
                    }
                    let e = &m.entries[i];
                    out.push((e.0.clone(), e.1.deep_copy()));
                    i = i + 1;
                }
                let m2 = DataMap { entries: out };
                proof {
                    lemma_entries_model_ext(out@, m.entries@);
                }
                let r = Value::Mapping(m2);
                proof {
                    lemma_view(&r);
                }
                r
            },
        }
    }
}

impl Clone for Value {
    fn clone(&self) -> (r: Value)
        ensures
            r@ == self@,
    {
        self.deep_copy()
    }
}

impl Clone for DataMap {
    fn clone(&self) -> (r: DataMap)
        ensures
            r@ == self@,
    {
        let v = Value::Mapping(DataMap { entries: Vec::new() });
        let mut out: Vec<(String, Value)> = Vec::with_capacity(self.entries.len());
        let n = self.entries.len();
        let mut i: usize = 0;
        while i < n
            invariant
                n == self.entries@.len(),
                i <= n,
                out@.len() == i,
                forall|j: int|
                    0 <= j < i ==> (#[trigger] out@[j]).0@ == self.entries@[j].0@ && out@[j].1@
                        == self.entries@[j].1@,
            decreases n - i,
        {
            let e = &self.entries[i];
            out.push((e.0.clone(), e.1.deep_copy()));
            i = i + 1;
        }
        proof {
            lemma_entries_model_ext(out@, self.entries@);
        }
        DataMap { entries: out }
    }
}

impl PartialEq for Value {
    fn eq(&self, other: &Value) -> (r: bool) {
        self.equals(other)
    }
}

impl vstd::std_specs::cmp::PartialEqSpecImpl for Value {
    open spec fn obeys_eq_spec() -> bool {
        true
    }

    open spec fn eq_spec(&self, other: &Value) -> bool {
        model::value_eq(self@, other@)
    }
}

impl Eq for Value {

}

impl DataMap {
    /// Equality of mappings: the same number of entries, each found in the other mapping under
    /// its key with an equal value.
    pub fn equals(&self, other: &DataMap) -> (r: bool)
        ensures
            r == (self@.len() == other@.len() && model::entries_in(self@, other@)),
    {
        proof {
            lemma_entries_model(self.entries@);
            model::lemma_entries_in(self@, other@);
        }
        if self.entries.len() != other.len() {
            return false;
        }
        let n = self.entries.len();
        let mut i: usize = 0;
        while i < n
            invariant
                n == self.entries@.len(),
                n == self@.len(),
                n == other@.len(),
                model::entries_in(self@, other@) <==> forall|j: int|
                    0 <= j < self@.len() ==> model::entry_found_equal(other@, #[trigger] self@[j]),
                i <= n,
                forall|j: int|
                    0 <= j < self.entries@.len() ==> #[trigger] self@[j] == (
                        self.entries@[j].0@,
                        self.entries@[j].1@,
                    ),
                forall|j: int| 0 <= j < i ==> model::entry_found_equal(other@, #[trigger] self@[j]),
            decreases n - i,
        {
            let e = &self.entries[i];
            proof {
                assert(self@[i as int] == (e.0@, e.1@));
            }
            match other.get(e.0.as_str()) {
                Some(w) => {
                    if !e.1.equals(w) {
                        proof {
                            assert(!model::entry_found_equal(other@, self@[i as int]));
                        }
                        return false;
                    }
                },
                None => {
                    proof {
                        assert(!model::entry_found_equal(other@, self@[i as int]));
                    }
                    return false;
                },
            }
            i = i + 1;
        }
        true
    }
}

impl PartialEq for DataMap {
    fn eq(&self, other: &DataMap) -> (r: bool) {
        self.equals(other)
    }
}

impl vstd::std_specs::cmp::PartialEqSpecImpl for DataMap {
    open spec fn obeys_eq_spec() -> bool {
        true
    }

    open spec fn eq_spec(&self, other: &DataMap) -> bool {
        self@.len() == other@.len() && model::entries_in(self@, other@)
    }
}

} // verus!
