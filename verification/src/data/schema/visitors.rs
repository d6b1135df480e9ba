//! Scanning of types into schemas: what each kind of type contributes.

use crate::data::schema::builders::{
    required_names, with_property, with_range, with_schema, ArrayBuilder, ObjectBuilder,
    OneOfBuilder, SchemaBuilders, F32_MAX_BITS, F32_MIN_BITS, F64_MAX_BITS, F64_MIN_BITS,
};
use crate::data::schema::error::SchemaScanError;
use crate::data::schema::json_schema::{
    empty_schema, typed_schema, JsonSchema, RangeValue, SchemaModel, SchemaTypes,
};
use crate::data::value::FloatBits;
use vstd::prelude::*;

verus! {

/// The primitive types that a scanned type is made of.
#[derive(Clone, Copy, Debug, PartialEq, Eq, Structural)]
pub enum PrimitiveTypes {
    Boolean,
    U8,
    U16,
    U32,
    U64,
    USize,
    I8,
    I16,
    I32,
    I64,
    ISize,
    F32,
    F64,
    String,
    Str,
    Char,
}

/// The types that wrap another type.
#[derive(Clone, Copy, Debug, PartialEq, Eq, Structural)]
pub enum WrapTypes {
    Option,
    Vec,
}

/// The schema of a primitive type: booleans and texts by their type, integers with the range
/// of their type (`isize` and `usize` as 64-bit), numbers with the range of finite numbers.
pub open spec fn primitive_schema(tp: PrimitiveTypes) -> SchemaModel {
    let integer = typed_schema(SchemaTypes::Integer);
    let num = typed_schema(SchemaTypes::Number);
    match tp {
        PrimitiveTypes::Boolean => typed_schema(SchemaTypes::Boolean),
        PrimitiveTypes::U8 => with_range(integer, RangeValue::U64(0), RangeValue::U64(0xff)),
        PrimitiveTypes::U16 => with_range(integer, RangeValue::U64(0), RangeValue::U64(0xffff)),
        PrimitiveTypes::U32 => with_range(integer, RangeValue::U64(0), RangeValue::U64(0xffff_ffff)),
        PrimitiveTypes::U64 => with_range(integer, RangeValue::U64(0), RangeValue::U64(u64::MAX)),
        PrimitiveTypes::USize => with_range(integer, RangeValue::U64(0), RangeValue::U64(u64::MAX)),
        PrimitiveTypes::I8 => with_range(integer, RangeValue::I64(-0x80i64), RangeValue::I64(0x7f)),
        PrimitiveTypes::I16 => with_range(
            integer,
            RangeValue::I64(-0x8000i64),
            RangeValue::I64(0x7fff),
        ),
        PrimitiveTypes::I32 => with_range(
            integer,
            RangeValue::I64(-0x8000_0000i64),
            RangeValue::I64(0x7fff_ffff),
        ),
        PrimitiveTypes::I64 => with_range(integer, RangeValue::I64(i64::MIN), RangeValue::I64(i64::MAX)),
        PrimitiveTypes::ISize => with_range(
            integer,
            RangeValue::I64(i64::MIN),
            RangeValue::I64(i64::MAX),
        ),
        PrimitiveTypes::F32 => with_range(
            num,
            RangeValue::F64(FloatBits { bits: F32_MIN_BITS }),
            RangeValue::F64(FloatBits { bits: F32_MAX_BITS }),
        ),
        PrimitiveTypes::F64 => with_range(
            num,
            RangeValue::F64(FloatBits { bits: F64_MIN_BITS }),
            RangeValue::F64(FloatBits { bits: F64_MAX_BITS }),
        ),
        PrimitiveTypes::String => typed_schema(SchemaTypes::String),
        PrimitiveTypes::Str => typed_schema(SchemaTypes::String),
        PrimitiveTypes::Char => typed_schema(SchemaTypes::String),
    }
}

/// The schema of a wrapped type: an optional one is marked optional, a list is an array of it.
pub open spec fn wrapped_schema(wrap: WrapTypes, s: SchemaModel) -> SchemaModel {
    match wrap {
        WrapTypes::Option => SchemaModel { is_optional: true, ..s },
        WrapTypes::Vec => SchemaModel {
            items: Some(seq![s]),
            ..typed_schema(SchemaTypes::Array)
        },
    }
}

/// The schema of an object built from its properties.
pub open spec fn object_schema(props: Option<Seq<(Seq<char>, SchemaModel)>>) -> SchemaModel {
    SchemaModel {
        properties: props,
        required: match props {
            Some(p) => if required_names(p).len() > 0 {
                Some(required_names(p))
            } else {
                None
            },
            None => None,
        },
        ..typed_schema(SchemaTypes::Object)
    }
}

/// Scans types into schemas.
pub struct JsonSchemaVisitor;

/// Collects the fields of a struct.
pub struct JsonSchemaStructVisitor {
    builder: ObjectBuilder,
}

/// Collects the variants of an enum.
pub struct JsonSchemaEnumVisitor {
    builder: OneOfBuilder,
}

/// Collects the arguments of a tuple variant.
pub struct JsonSchemaTupleVariantVisitor {
    builder: ArrayBuilder,
    variant: String,
}

impl JsonSchemaVisitor {
    /// The schema of a primitive type.
    pub fn visit(&mut self, _name: &str, tp: PrimitiveTypes) -> (r: Result<JsonSchema, SchemaScanError>)
        ensures
            r matches Ok(s) && s@ == primitive_schema(tp),
    {
        let s = match tp {
            PrimitiveTypes::Boolean => JsonSchema::from_types(SchemaTypes::Boolean),
            PrimitiveTypes::U8 => {
                let mut b = SchemaBuilders::integer_builder();
                b.u8();
                b.build()
            },
            PrimitiveTypes::U16 => {
                let mut b = SchemaBuilders::integer_builder();
                b.u16();
                b.build()
            },
            PrimitiveTypes::U32 => {
                let mut b = SchemaBuilders::integer_builder();
                b.u32();
                b.build()
            },
            PrimitiveTypes::U64 => {
                let mut b = SchemaBuilders::integer_builder();
                b.u64();
                b.build()
            },
            PrimitiveTypes::USize => {
                let mut b = SchemaBuilders::integer_builder();
                b.usize();
                b.build()
            },
            PrimitiveTypes::I8 => {
                let mut b = SchemaBuilders::integer_builder();
                b.i8();
                b.build()
            },
            PrimitiveTypes::I16 => {
                let mut b = SchemaBuilders::integer_builder();
                b.i16();
                b.build()
            },
            PrimitiveTypes::I32 => {
                let mut b = SchemaBuilders::integer_builder();
                b.i32();
                b.build()
            },
            PrimitiveTypes::I64 => {
                let mut b = SchemaBuilders::integer_builder();
                b.i64();
                b.build()
            },
            PrimitiveTypes::ISize => {
                let mut b = SchemaBuilders::integer_builder();
                b.isize();
                b.build()
            },
            PrimitiveTypes::F32 => {
                let mut b = SchemaBuilders::number_builder();
                b.float32();
                b.build()
            },
            PrimitiveTypes::F64 => {
                let mut b = SchemaBuilders::number_builder();
                b.float64();
                b.build()
            },
            PrimitiveTypes::String => JsonSchema::from_types(SchemaTypes::String),
            PrimitiveTypes::Str => JsonSchema::from_types(SchemaTypes::String),
            PrimitiveTypes::Char => JsonSchema::from_types(SchemaTypes::String),
        };
        Ok(s)
    }

    /// The schema of a wrapped type, from the schema `s` of the type it wraps.
    pub fn visit_wrap_type(&mut self, _name: &str, wrap: WrapTypes, s: JsonSchema) -> (r: Result<
        JsonSchema,
        SchemaScanError,
    >)
        ensures
            r matches Ok(x) && x@ == wrapped_schema(wrap, s@),
    {
        let r = match wrap {
            WrapTypes::Option => s.into_optional(),
            WrapTypes::Vec => {
                let mut b = SchemaBuilders::array_builder();
                b.push(s);
                b.build()
            },
        };
        Ok(r)
    }

    /// The schema of a map, from the schemas of its key type `k` (which must be a string
    /// type, where it has a type) and of its value type `v`.
    pub fn visit_map_type(&mut self, _name: &str, k: JsonSchema, v: JsonSchema) -> (r: Result<
        JsonSchema,
        SchemaScanError,
    >)
        requires
            k@.tp is None || k@.tp == Some(SchemaTypes::String),
        ensures
            r matches Ok(x) && x@ == (SchemaModel {
                additional_properties: Some(Box::new(v@)),
                ..typed_schema(SchemaTypes::Object)
            }),
    {
        let mut b = SchemaBuilders::map_builder();
        b.additional(v);
        Ok(b.build())
    }

    /// Starts a struct.
    pub fn struct_visitor(&mut self, _name: &str) -> (r: Result<
        JsonSchemaStructVisitor,
        SchemaScanError,
    >)
        ensures
            r matches Ok(x) && x.props() is None && x.well_formed(),
    {
        Ok(JsonSchemaStructVisitor { builder: SchemaBuilders::object_builder() })
    }

    /// Starts an enum.
    pub fn enum_visitor(&mut self, _name: &str, _enum_name: &str) -> (r: Result<
        JsonSchemaEnumVisitor,
        SchemaScanError,
    >)
        ensures
            r matches Ok(x) && x.alternatives() is None && x.well_formed(),
    {
        Ok(JsonSchemaEnumVisitor { builder: SchemaBuilders::one_of_builder() })
    }
}

impl JsonSchemaStructVisitor {
    /// The fields collected so far.
    pub closed spec fn props(&self) -> Option<Seq<(Seq<char>, SchemaModel)>> {
        self.builder@.properties
    }

    /// The schema built so far is an object of the collected fields and nothing more.
    pub closed spec fn well_formed(&self) -> bool {
        self.builder@ == (SchemaModel {
            properties: self.builder@.properties,
            ..typed_schema(SchemaTypes::Object)
        })
    }

    /// Adds the field `name` of schema `p`.
    pub fn field(&mut self, name: &str, p: JsonSchema) -> (r: Result<(), SchemaScanError>)
        requires
            old(self).well_formed(),
        ensures
            r is Ok,
            final(self).well_formed(),
            final(self).props() == Some(with_property(old(self).props(), name@, p@)),
    {
        self.builder.property(name, p);
        Ok(())
    }

    /// The schema of the struct: an object of its fields, those not optional required.
    pub fn end(self) -> (r: Result<JsonSchema, SchemaScanError>)
        requires
            self.well_formed(),
        ensures
            r matches Ok(x) && x@ == object_schema(self.props()),
    {
        Ok(self.builder.build())
    }
}

impl JsonSchemaEnumVisitor {
    /// The alternatives collected so far.
    pub closed spec fn alternatives(&self) -> Option<Seq<SchemaModel>> {
        self.builder@.one_of
    }

    /// The schema built so far holds the collected alternatives and nothing more.
    pub closed spec fn well_formed(&self) -> bool {
        self.builder@ == (SchemaModel { one_of: self.builder@.one_of, ..empty_schema() })
    }

    /// Adds a unit variant: the constant of its name.
    pub fn unit_variant(&mut self, _name: &str, variant: &str) -> (r: Result<(), SchemaScanError>)
        requires
            old(self).well_formed(),
        ensures
            r is Ok,
            final(self).well_formed(),
            final(self).alternatives() == Some(
                with_schema(
                    old(self).alternatives(),
                    SchemaModel { const_value: Some(variant@), ..empty_schema() },
                ),
            ),
    {
        let mut c = SchemaBuilders::const_builder();
        c.value(variant);
        let s = c.build();
        self.builder.push(s);
        Ok(())
    }

    /// Starts a tuple variant.
    pub fn tuple_variant_visitor(&mut self, _name: &str, variant: &str) -> (r: Result<
        JsonSchemaTupleVariantVisitor,
        SchemaScanError,
    >)
        ensures
            r matches Ok(x) && x.variant_name() == variant@ && x.args() is None && x.well_formed(),
    {
        Ok(
            JsonSchemaTupleVariantVisitor {
                builder: SchemaBuilders::array_builder(),
                variant: variant.to_owned(),
            },
        )
    }

    /// Adds a variant of schema `v`.
    pub fn variant(&mut self, _name: &str, _variant: &str, v: JsonSchema) -> (r: Result<
        (),
        SchemaScanError,
    >)
        requires
            old(self).well_formed(),
        ensures
            r is Ok,
            final(self).well_formed(),
            final(self).alternatives() == Some(with_schema(old(self).alternatives(), v@)),
    {
        self.builder.push(v);
        Ok(())
    }

    /// The schema of the enum: one of its variants.
    pub fn end(self) -> (r: Result<JsonSchema, SchemaScanError>)
        requires
            self.well_formed(),
        ensures
            r matches Ok(x) && x@ == (SchemaModel { one_of: self.alternatives(), ..empty_schema() }),
    {
        Ok(self.builder.build())
    }
}

impl JsonSchemaTupleVariantVisitor {
    pub closed spec fn variant_name(&self) -> Seq<char> {
        self.variant@
    }

    /// The arguments collected so far.
    pub closed spec fn args(&self) -> Option<Seq<SchemaModel>> {
        self.builder@.items
    }

    /// The schema built so far is an array of the collected arguments and nothing more.
    pub closed spec fn well_formed(&self) -> bool {
        self.builder@ == (SchemaModel {
            items: self.builder@.items,
            ..typed_schema(SchemaTypes::Array)
        })
    }

    /// Adds an argument of schema `s`.
    pub fn tuple_variant_arg(
        &mut self,
        _enum_name: &str,
        _variant: &str,
        _arg_idx: u32,
        s: JsonSchema,
    ) -> (r: Result<(), SchemaScanError>)
        requires
            old(self).well_formed(),
        ensures
            r is Ok,
            final(self).well_formed(),
            final(self).args() == Some(with_schema(old(self).args(), s@)),
            final(self).variant_name() == old(self).variant_name(),
    {
        self.builder.push(s);
        Ok(())
    }

    /// The schema of the variant: an object whose one property, named after the variant, is
    /// the array of its arguments.
    pub fn end(self) -> (r: Result<JsonSchema, SchemaScanError>)
        requires
            self.well_formed(),
        ensures
            r matches Ok(x) && x@ == object_schema(
                Some(
                    seq![
                        (
                            self.variant_name(),
                            SchemaModel { items: self.args(), ..typed_schema(SchemaTypes::Array) },
                        ),
                    ],
                ),
            ),
    {
        let arr = self.builder.build();
        let mut b = SchemaBuilders::object_builder();
        b.property(self.variant.as_str(), arr);
        Ok(b.build())
    }
}

} // verus!
