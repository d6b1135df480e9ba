use toy_core::data::schema::builders::{ObjectBuilder, SchemaBuilders};
use toy_core::data::schema::visitors::{JsonSchemaVisitor, PrimitiveTypes, WrapTypes};
use toy_core::data::schema::{JsonSchema, SchemaTypes};

#[test]
fn object_builder_required() {
    let mut b = ObjectBuilder::new();
    b.property("a", JsonSchema::from_types(SchemaTypes::String));
    b.property("b", JsonSchema::from_types(SchemaTypes::Integer).into_optional());
    let s = b.build();
    assert_eq!(s.tp(), Some(SchemaTypes::Object));
    assert!(!s.is_optional());
}

#[test]
fn visitor_struct_fields() {
    let mut v = JsonSchemaVisitor;
    let mut sv = v.struct_visitor("config").unwrap();
    let cap = v.visit("capacity", PrimitiveTypes::USize).unwrap();
    assert_eq!(cap.tp(), Some(SchemaTypes::Integer));
    sv.field("capacity", cap).unwrap();
    let path = v.visit("path", PrimitiveTypes::String).unwrap();
    let opt = v.visit_wrap_type("path", WrapTypes::Option, path).unwrap();
    assert!(opt.is_optional());
    sv.field("path", opt).unwrap();
    let s = sv.end().unwrap();
    assert_eq!(s.tp(), Some(SchemaTypes::Object));
}

#[test]
fn visitor_enum_and_array() {
    let mut v = JsonSchemaVisitor;
    let mut ev = v.enum_visitor("e", "E").unwrap();
    ev.unit_variant("e", "One").unwrap();
    let mut tv = ev.tuple_variant_visitor("e", "Two").unwrap();
    let arg = v.visit("x", PrimitiveTypes::U8).unwrap();
    tv.tuple_variant_arg("E", "Two", 0, arg).unwrap();
    let two = tv.end().unwrap();
    assert_eq!(two.tp(), Some(SchemaTypes::Object));
    ev.variant("e", "Two", two).unwrap();
    let e = ev.end().unwrap();
    assert_eq!(e.tp(), None);
    let item = v.visit("x", PrimitiveTypes::Boolean).unwrap();
    let arr = v.visit_wrap_type("x", WrapTypes::Vec, item).unwrap();
    assert_eq!(arr.tp(), Some(SchemaTypes::Array));
    let key = v.visit("k", PrimitiveTypes::String).unwrap();
    let val = v.visit("v", PrimitiveTypes::F64).unwrap();
    assert_eq!(val.tp(), Some(SchemaTypes::Number));
    let m = v.visit_map_type("m", key, val).unwrap();
    assert_eq!(m.tp(), Some(SchemaTypes::Object));
    let c = SchemaBuilders::const_builder().value("k").build();
    assert_eq!(c.tp(), None);
}
