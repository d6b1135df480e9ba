//! Builders of schemas: constants, objects, maps, arrays, alternatives, integers and numbers.

use crate::data::model;
use crate::data::schema::json_schema::{
    self, empty_schema, props_view, schemas_view, texts_view, typed_schema, JsonSchema,
    RangeValue, SchemaModel, SchemaTypes,
};
use crate::data::value::FloatBits;
use vstd::prelude::*;

verus! {

/// The names of the properties that are not optional, in order.
pub open spec fn required_names(props: Seq<(Seq<char>, SchemaModel)>) -> Seq<Seq<char>>
    decreases props.len(),
{
    if props.len() == 0 {
        Seq::empty()
    } else {
        let rest = required_names(props.drop_last());
        if props.last().1.is_optional {
            rest
        } else {
            rest.push(props.last().0)
        }
    }
}

/// The properties after `name` was set to `prop`: in place where it is there, else at the end.
pub open spec fn with_property(
    props: Option<Seq<(Seq<char>, SchemaModel)>>,
    name: Seq<char>,
    prop: SchemaModel,
) -> Seq<(Seq<char>, SchemaModel)> {
    match props {
        Some(p) => model::map_insert(p, name, prop),
        None => seq![(name, prop)],
    }
}

/// A list of schemas after `s` was added at its end.
pub open spec fn with_schema(list: Option<Seq<SchemaModel>>, s: SchemaModel) -> Seq<SchemaModel> {
    match list {
        Some(l) => l.push(s),
        None => seq![s],
    }
}

/// Sets the schema of `name` in a list of named schemas.
fn insert_property(props: &mut Vec<(String, JsonSchema)>, name: String, prop: JsonSchema)
    ensures
        props_view(final(props)@) == model::map_insert(props_view(old(props)@), name@, prop@),
{
    let ghost m = props_view(old(props)@);
    let n = props.len();
    let mut i: usize = 0;
    while i < n
        invariant
            n == props@.len(),
            m == props_view(props@),
            *props == *old(props),
            i <= n,
            forall|j: int| 0 <= j < i ==> m[j].0 != name@,
        decreases n - i,
    {
        if props[i].0 == name {
            proof {
                model::lemma_key_index_at(m, name@, i as int);
            }
            props.set(i, (name, prop));
            proof {
                assert(props_view(props@) =~= m.update(i as int, (name@, prop@)));
            }
            return;
        }
        i = i + 1;
    }
    proof {
        model::lemma_key_index_absent(m, name@);
    }
    props.push((name, prop));
    proof {
        assert(props_view(props@) =~= m.push((name@, prop@)));
    }
}

/// Entry points to the builders.
pub struct SchemaBuilders;

impl SchemaBuilders {
    pub fn const_builder() -> (r: ConstBuilder)
        ensures
            r@ == empty_schema(),
    {
        ConstBuilder::new()
    }

    pub fn object_builder() -> (r: ObjectBuilder)
        ensures
            r@ == typed_schema(SchemaTypes::Object),
    {
        ObjectBuilder::new()
    }

    pub fn map_builder() -> (r: MapBuilder)
        ensures
            r@ == typed_schema(SchemaTypes::Object),
    {
        MapBuilder::new()
    }

    pub fn array_builder() -> (r: ArrayBuilder)
        ensures
            r@ == typed_schema(SchemaTypes::Array),
    {
        ArrayBuilder::new()
    }

    pub fn one_of_builder() -> (r: OneOfBuilder)
        ensures
            r@ == empty_schema(),
    {
        OneOfBuilder::new()
    }

    pub fn integer_builder() -> (r: IntegerBuilder)
        ensures
            r@ == typed_schema(SchemaTypes::Integer),
    {
        IntegerBuilder::new()
    }

    pub fn number_builder() -> (r: NumberBuilder)
        ensures
            r@ == typed_schema(SchemaTypes::Number),
    {
        NumberBuilder::new()
    }
}

/// Builds a schema of one constant.
pub struct ConstBuilder {
    schema: JsonSchema,
}

/// Builds a schema of an object with named properties.
pub struct ObjectBuilder {
    schema: JsonSchema,
}

/// Builds a schema of an object whose properties all follow one schema.
pub struct MapBuilder {
    schema: JsonSchema,
}

/// Builds a schema of an array.
pub struct ArrayBuilder {
    schema: JsonSchema,
}

/// Builds a schema of alternatives.
pub struct OneOfBuilder {
    schema: JsonSchema,
}

/// Builds a schema of integers within a range.
pub struct IntegerBuilder {
    schema: JsonSchema,
}

/// Builds a schema of numbers within a range.
pub struct NumberBuilder {
    schema: JsonSchema,
}

impl View for ConstBuilder {
    type V = SchemaModel;

    closed spec fn view(&self) -> SchemaModel {
        self.schema@
    }
}

impl View for ObjectBuilder {
    type V = SchemaModel;

    closed spec fn view(&self) -> SchemaModel {
        self.schema@
    }
}

impl View for MapBuilder {
    type V = SchemaModel;

    closed spec fn view(&self) -> SchemaModel {
        self.schema@
    }
}

impl View for ArrayBuilder {
    type V = SchemaModel;

    closed spec fn view(&self) -> SchemaModel {
        self.schema@
    }
}

impl View for OneOfBuilder {
    type V = SchemaModel;

    closed spec fn view(&self) -> SchemaModel {
        self.schema@
    }
}

impl View for IntegerBuilder {
    type V = SchemaModel;

    closed spec fn view(&self) -> SchemaModel {
        self.schema@
    }
}

impl View for NumberBuilder {
    type V = SchemaModel;

    closed spec fn view(&self) -> SchemaModel {
        self.schema@
    }
}

impl ConstBuilder {
    pub fn new() -> (r: ConstBuilder)
        ensures
            r@ == empty_schema(),
    {
        ConstBuilder { schema: JsonSchema::new() }
    }

    pub fn build(&self) -> (r: JsonSchema)
        ensures
            r@ == self@,
    {
        self.schema.deep_clone()
    }

    /// Sets the constant.
    pub fn value(&mut self, v: &str) -> (r: &mut Self)
        ensures
            r@ == (SchemaModel { const_value: Some(v@), ..old(self)@ }),
            final(self)@ == final(r)@,
    {
        proof {
            json_schema::lemma_schema_view(&self.schema);
        }
        self.schema.const_ = Some(v.to_owned());
        proof {
            json_schema::lemma_schema_view(&self.schema);
        }
        self
    }
}

impl ObjectBuilder {
    pub fn new() -> (r: ObjectBuilder)
        ensures
            r@ == typed_schema(SchemaTypes::Object),
    {
        ObjectBuilder { schema: JsonSchema::from_types(SchemaTypes::Object) }
    }

    /// The schema, with the names of the properties that are not optional as `required`.
    pub fn build(&self) -> (r: JsonSchema)
        ensures
            r@ == (SchemaModel {
                required: match self@.properties {
                    Some(p) => if required_names(p).len() > 0 {
                        Some(required_names(p))
                    } else {
                        None
                    },
                    None => None,
                },
                ..self@
            }),
    {
        proof {
            json_schema::lemma_schema_view(&self.schema);
        }
        let mut required: Vec<String> = Vec::new();
        match &self.schema.properties {
            Some(props) => {
                let ghost p = props_view(props@);
                let n = props.len();
                let mut i: usize = 0;
                while i < n
                    invariant
                        n == props@.len(),
                        p == props_view(props@),
                        i <= n,
                        texts_view(required@) == required_names(p.take(i as int)),
                    decreases n - i,
                {
                    proof {
                        assert(p.take(i + 1).drop_last() =~= p.take(i as int));
                    }
                    if !props[i].1.is_optional() {
                        let ghost before = required@;
                        required.push(props[i].0.clone());
                        proof {
                            assert(texts_view(required@) =~= texts_view(before).push(props@[i as int].0@));
                        }
                    }
                    i = i + 1;
                }
                proof {
                    assert(p.take(n as int) =~= p);
                }
            },
            None => {
                proof {
                    assert(texts_view(required@) =~= Seq::<Seq<char>>::empty());
                }
            },
        }
        self.schema.deep_clone().into_required(required)
    }

    /// Sets the schema of the property `name`.
    pub fn property(&mut self, name: &str, prop: JsonSchema) -> (r: &mut Self)
        ensures
            r@ == (SchemaModel {
                properties: Some(with_property(old(self)@.properties, name@, prop@)),
                ..old(self)@
            }),
            final(self)@ == final(r)@,
    {
        proof {
            json_schema::lemma_schema_view(&self.schema);
        }
        let mut props = match self.schema.properties.take() {
            Some(v) => v,
            None => Vec::new(),
        };
        proof {
            if old(self)@.properties is None {
                assert(props_view(props@) =~= Seq::<(Seq<char>, SchemaModel)>::empty());
                model::lemma_key_index_absent(props_view(props@), name@);
                assert(seq![(name@, prop@)] =~= Seq::<(Seq<char>, SchemaModel)>::empty().push(
                    (name@, prop@),
                ));
            }
        }
        insert_property(&mut props, name.to_owned(), prop);
        self.schema.properties = Some(props);
        proof {
            json_schema::lemma_schema_view(&self.schema);
        }
        self
    }
}

impl MapBuilder {
    pub fn new() -> (r: MapBuilder)
        ensures
            r@ == typed_schema(SchemaTypes::Object),
    {
        MapBuilder { schema: JsonSchema::from_types(SchemaTypes::Object) }
    }

    pub fn build(&self) -> (r: JsonSchema)
        ensures
            r@ == self@,
    {
        self.schema.deep_clone()
    }

    /// Sets the schema that every property follows.
    pub fn additional(&mut self, prop: JsonSchema) -> (r: &mut Self)
        ensures
            r@ == (SchemaModel { additional_properties: Some(Box::new(prop@)), ..old(self)@ }),
            final(self)@ == final(r)@,
    {
        proof {
            json_schema::lemma_schema_view(&self.schema);
        }
        self.schema.additional_properties = Some(Box::new(prop));
        proof {
            json_schema::lemma_schema_view(&self.schema);
        }
        self
    }
}

impl ArrayBuilder {
    pub fn new() -> (r: ArrayBuilder)
        ensures
            r@ == typed_schema(SchemaTypes::Array),
    {
        ArrayBuilder { schema: JsonSchema::from_types(SchemaTypes::Array) }
    }

    pub fn build(&self) -> (r: JsonSchema)
        ensures
            r@ == self@,
    {
        self.schema.deep_clone()
    }

    /// Adds the schema of the next item.
    pub fn push(&mut self, prop: JsonSchema) -> (r: &mut Self)
        ensures
            r@ == (SchemaModel { items: Some(with_schema(old(self)@.items, prop@)), ..old(self)@ }),
            final(self)@ == final(r)@,
    {
        proof {
            json_schema::lemma_schema_view(&self.schema);
        }
        let mut items = match self.schema.items.take() {
            Some(v) => v,
            None => Vec::new(),
        };
        let ghost before = items@;
        items.push(prop);
        proof {
            if old(self)@.items is None {
                assert(schemas_view(items@) =~= seq![prop@]);
            } else {
                assert(schemas_view(items@) =~= schemas_view(before).push(prop@));
            }
        }
        self.schema.items = Some(items);
        proof {
            json_schema::lemma_schema_view(&self.schema);
        }
        self
    }
}

impl OneOfBuilder {
    pub fn new() -> (r: OneOfBuilder)
        ensures
            r@ == empty_schema(),
    {
        OneOfBuilder { schema: JsonSchema::new() }
    }

    pub fn build(&self) -> (r: JsonSchema)
        ensures
            r@ == self@,
    {
        self.schema.deep_clone()
    }

    /// Adds an alternative.
    pub fn push(&mut self, prop: JsonSchema) -> (r: &mut Self)
        ensures
            r@ == (SchemaModel { one_of: Some(with_schema(old(self)@.one_of, prop@)), ..old(self)@ }),
            final(self)@ == final(r)@,
    {
        proof {
            json_schema::lemma_schema_view(&self.schema);
        }
        let mut list = match self.schema.one_of.take() {
            Some(v) => v,
            None => Vec::new(),
        };
        let ghost before = list@;
        list.push(prop);
        proof {
            if old(self)@.one_of is None {
                assert(schemas_view(list@) =~= seq![prop@]);
            } else {
                assert(schemas_view(list@) =~= schemas_view(before).push(prop@));
            }
        }
        self.schema.one_of = Some(list);
        proof {
            json_schema::lemma_schema_view(&self.schema);
        }
        self
    }
}

/// The schema with the given bounds.
pub open spec fn with_range(s: SchemaModel, min: RangeValue, max: RangeValue) -> SchemaModel {
    SchemaModel { minimum: Some(min), maximum: Some(max), ..s }
}

impl IntegerBuilder {
    pub fn new() -> (r: IntegerBuilder)
        ensures
            r@ == typed_schema(SchemaTypes::Integer),
    {
        IntegerBuilder { schema: JsonSchema::from_types(SchemaTypes::Integer) }
    }

    pub fn build(&self) -> (r: JsonSchema)
        ensures
            r@ == self@,
    {
        self.schema.deep_clone()
    }

    fn set_range(&mut self, min: RangeValue, max: RangeValue)
        ensures
            final(self)@ == with_range(old(self)@, min, max),
    {
        proof {
            json_schema::lemma_schema_view(&self.schema);
        }
        self.schema.minimum = Some(min);
        self.schema.maximum = Some(max);
        proof {
            json_schema::lemma_schema_view(&self.schema);
        }
    }

    pub fn i8(&mut self) -> (r: &mut Self)
        ensures
            r@ == with_range(old(self)@, RangeValue::I64(-0x80i64), RangeValue::I64(0x7f)),
            final(self)@ == final(r)@,
    {
        self.set_range(RangeValue::I64(-0x80i64), RangeValue::I64(0x7f));
        self
    }

    pub fn i16(&mut self) -> (r: &mut Self)
        ensures
            r@ == with_range(old(self)@, RangeValue::I64(-0x8000i64), RangeValue::I64(0x7fff)),
            final(self)@ == final(r)@,
    {
        self.set_range(RangeValue::I64(-0x8000i64), RangeValue::I64(0x7fff));
        self
    }

    pub fn i32(&mut self) -> (r: &mut Self)
        ensures
            r@ == with_range(
                old(self)@,
                RangeValue::I64(-0x8000_0000i64),
                RangeValue::I64(0x7fff_ffff),
            ),
            final(self)@ == final(r)@,
    {
        self.set_range(RangeValue::I64(-0x8000_0000i64), RangeValue::I64(0x7fff_ffff));
        self
    }

    pub fn i64(&mut self) -> (r: &mut Self)
        ensures
            r@ == with_range(old(self)@, RangeValue::I64(i64::MIN), RangeValue::I64(i64::MAX)),
            final(self)@ == final(r)@,
    {
        self.set_range(RangeValue::I64(i64::MIN), RangeValue::I64(i64::MAX));
        self
    }

    /// The range of `isize`, taken as that of `i64`.
    pub fn isize(&mut self) -> (r: &mut Self)
        ensures
            r@ == with_range(old(self)@, RangeValue::I64(i64::MIN), RangeValue::I64(i64::MAX)),
            final(self)@ == final(r)@,
    {
        self.set_range(RangeValue::I64(i64::MIN), RangeValue::I64(i64::MAX));
        self
    }

    pub fn u8(&mut self) -> (r: &mut Self)
        ensures
            r@ == with_range(old(self)@, RangeValue::U64(0), RangeValue::U64(0xff)),
            final(self)@ == final(r)@,
    {
        self.set_range(RangeValue::U64(0), RangeValue::U64(0xff));
        self
    }

    pub fn u16(&mut self) -> (r: &mut Self)
        ensures
            r@ == with_range(old(self)@, RangeValue::U64(0), RangeValue::U64(0xffff)),
            final(self)@ == final(r)@,
    {
        self.set_range(RangeValue::U64(0), RangeValue::U64(0xffff));
        self
    }

    pub fn u32(&mut self) -> (r: &mut Self)
        ensures
            r@ == with_range(old(self)@, RangeValue::U64(0), RangeValue::U64(0xffff_ffff)),
            final(self)@ == final(r)@,
    {
        self.set_range(RangeValue::U64(0), RangeValue::U64(0xffff_ffff));
        self
    }

    pub fn u64(&mut self) -> (r: &mut Self)
        ensures
            r@ == with_range(old(self)@, RangeValue::U64(0), RangeValue::U64(u64::MAX)),
            final(self)@ == final(r)@,
    {
        self.set_range(RangeValue::U64(0), RangeValue::U64(u64::MAX));
        self
    }

    /// The range of `usize`, taken as that of `u64`.
    pub fn usize(&mut self) -> (r: &mut Self)
        ensures
            r@ == with_range(old(self)@, RangeValue::U64(0), RangeValue::U64(u64::MAX)),
            final(self)@ == final(r)@,
    {
        self.set_range(RangeValue::U64(0), RangeValue::U64(u64::MAX));
        self
    }
}

/// The bit pattern of the lowest finite single-precision, widened to binary64.
pub const F32_MIN_BITS: u64 = 0xc7ef_ffff_e000_0000;

/// The bit pattern of the highest finite single-precision, widened to binary64.
pub const F32_MAX_BITS: u64 = 0x47ef_ffff_e000_0000;

/// The bit pattern of the lowest finite binary64 number.
pub const F64_MIN_BITS: u64 = 0xffef_ffff_ffff_ffff;

/// The bit pattern of the highest finite binary64 number.
pub const F64_MAX_BITS: u64 = 0x7fef_ffff_ffff_ffff;

impl NumberBuilder {
    pub fn new() -> (r: NumberBuilder)
        ensures
            r@ == typed_schema(SchemaTypes::Number),
    {
        NumberBuilder { schema: JsonSchema::from_types(SchemaTypes::Number) }
    }

    pub fn build(&self) -> (r: JsonSchema)
        ensures
            r@ == self@,
    {
        self.schema.deep_clone()
    }

    fn set_range(&mut self, min: RangeValue, max: RangeValue)
        ensures
            final(self)@ == with_range(old(self)@, min, max),
    {
        proof {
            json_schema::lemma_schema_view(&self.schema);
        }
        self.schema.minimum = Some(min);
        self.schema.maximum = Some(max);
        proof {
            json_schema::lemma_schema_view(&self.schema);
        }
    }

    /// The range of finite single-precision numbers.
    pub fn float32(&mut self) -> (r: &mut Self)
        ensures
            r@ == with_range(
                old(self)@,
                RangeValue::F64(FloatBits { bits: F32_MIN_BITS }),
                RangeValue::F64(FloatBits { bits: F32_MAX_BITS }),
            ),
            final(self)@ == final(r)@,
    {
        self.set_range(
            RangeValue::F64(FloatBits { bits: F32_MIN_BITS }),
            RangeValue::F64(FloatBits { bits: F32_MAX_BITS }),
        );
        self
    }

    /// The range of finite binary64 numbers.
    pub fn float64(&mut self) -> (r: &mut Self)
        ensures
            r@ == with_range(
                old(self)@,
                RangeValue::F64(FloatBits { bits: F64_MIN_BITS }),
                RangeValue::F64(FloatBits { bits: F64_MAX_BITS }),
            ),
            final(self)@ == final(r)@,
    {
        self.set_range(
            RangeValue::F64(FloatBits { bits: F64_MIN_BITS }),
            RangeValue::F64(FloatBits { bits: F64_MAX_BITS }),
        );
        self
    }
}


/// A property name is required exactly when some property of that name is not optional:
/// every name in the required list belongs to a property that is not optional, and every
/// property that is not optional has its name in the list.
pub proof fn law_required_are_the_non_optional(props: Seq<(Seq<char>, SchemaModel)>)
    ensures
        forall|i: int|
            0 <= i < props.len() && !(#[trigger] props[i]).1.is_optional ==> required_names(
                props,
            ).contains(props[i].0),
        forall|j: int|
            0 <= j < required_names(props).len() ==> exists|i: int|
                0 <= i < props.len() && !props[i].1.is_optional && #[trigger] props[i].0
                    == #[trigger] required_names(props)[j],
    decreases props.len(),
{
    if props.len() > 0 {
        let rest = props.drop_last();
        law_required_are_the_non_optional(rest);
        let r = required_names(rest);
        let last = props.last();
        assert forall|i: int|
            0 <= i < props.len() && !(#[trigger] props[i]).1.is_optional implies required_names(
                props,
            ).contains(props[i].0) by {
            if i < props.len() - 1 {
                assert(rest[i] == props[i]);
                let k = choose|k: int| 0 <= k < r.len() && r[k] == props[i].0;
                if !last.1.is_optional {
                    assert(r.push(last.0)[k] == props[i].0);
                }
            } else {
                assert(r.push(last.0)[r.len() as int] == last.0);
            }
        }
        assert forall|j: int| 0 <= j < required_names(props).len() implies exists|i: int|
            0 <= i < props.len() && !props[i].1.is_optional && #[trigger] props[i].0
                == #[trigger] required_names(props)[j] by {
            if j < r.len() {
                assert(r[j] == required_names(rest)[j]);
                let i = choose|i: int|
                    0 <= i < rest.len() && !rest[i].1.is_optional && #[trigger] rest[i].0
                        == #[trigger] required_names(rest)[j];
                assert(props[i] == rest[i]);
                if !last.1.is_optional {
                    assert(r.push(last.0)[j] == r[j]);
                }
            } else {
                assert(props[props.len() - 1] == last);
            }
        }
    }
}

} // verus!
