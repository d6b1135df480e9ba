//! Building values piece by piece: sequences element by element, mappings entry by entry.

use crate::data::model::{self, ValueModel};
use crate::data::value::{self, DataMap, Value};
use vstd::prelude::*;

verus! {

impl Value {
    /// Appends `v` to a sequence; any other value is replaced by the sequence of `v` alone.
    pub fn push_element(&mut self, v: Value)
        ensures
            final(self)@ == match old(self)@ {
                ValueModel::Sequence(xs) => ValueModel::Sequence(xs.push(v@)),
                _ => ValueModel::Sequence(seq![v@]),
            },
    {
        let mut taken = Value::Null;
        std::mem::swap(self, &mut taken);
        proof {
            value::lemma_view(&taken);
        }
        let r = match taken {
            Value::Sequence(mut xs) => {
                let ghost before = xs@;
                xs.push(v);
                proof {
                    assert(value::models(xs@) =~= value::models(before).push(v@));
                }
                Value::Sequence(xs)
            },
            _ => {
                let mut xs: Vec<Value> = Vec::new();
                xs.push(v);
                proof {
                    assert(value::models(xs@) =~= seq![v@]);
                }
                Value::Sequence(xs)
            },
        };
        proof {
            value::lemma_view(&r);
        }
        *self = r;
    }

    /// Sets `key` to `v` in a mapping; any other value is replaced by the mapping of that one
    /// entry.
    pub fn insert_entry(&mut self, key: String, v: Value)
        ensures
            final(self)@ == match old(self)@ {
                ValueModel::Mapping(m) => ValueModel::Mapping(model::map_insert(m, key@, v@)),
                _ => ValueModel::Mapping(seq![(key@, v@)]),
            },
    {
        let mut taken = Value::Null;
        std::mem::swap(self, &mut taken);
        proof {
            value::lemma_view(&taken);
        }
        let r = match taken {
            Value::Mapping(mut m) => {
                m.insert(key, v);
                Value::Mapping(m)
            },
            _ => {
                let mut m = DataMap::new();
                m.insert(key, v);
                proof {
                    model::lemma_key_index_absent(Seq::<(Seq<char>, ValueModel)>::empty(), key@);
                    assert(Seq::<(Seq<char>, ValueModel)>::empty().push((key@, v@)) =~= seq![
                        (key@, v@),
                    ]);
                }
                Value::Mapping(m)
            },
        };
        proof {
            value::lemma_view(&r);
        }
        *self = r;
    }

    /// The mapping of one entry: `name` to `inner` (how a variant of an enum is written).
    pub fn variant(name: &str, inner: Value) -> (r: Value)
        ensures
            r@ == ValueModel::Mapping(seq![(name@, inner@)]),
    {
        let mut r = Value::Null;
        proof {
            value::lemma_view(&r);
        }
        r.insert_entry(name.to_owned(), inner);
        r
    }
}

} // verus!
