use std::cmp::Ordering;
use toy_core::data::{DataMap, FloatBits, Value};

fn map_of(entries: Vec<(&str, Value)>) -> Value {
    let mut m = DataMap::new();
    for (k, v) in entries {
        m.insert(k.to_string(), v);
    }
    Value::from(m)
}

fn seq_of(items: Vec<Value>) -> Value {
    Value::from(items)
}

#[test]
fn path() {
    let v = map_of(vec![
        ("a", Value::from(1)),
        ("b", Value::from(2)),
        (
            "c",
            map_of(vec![("ca", Value::from(31)), ("cb", Value::from(32))]),
        ),
        (
            "d",
            seq_of(vec![Value::from(41), Value::from(42), Value::from(43)]),
        ),
    ]);

    assert_eq!(v.path("xxx"), None);
    assert_eq!(v.path("a").unwrap(), &Value::from(1));
    assert_eq!(v.path("c.ca").unwrap(), &Value::from(31));
    assert_eq!(v.path("d.2").unwrap(), &Value::from(43));
}

#[test]
fn insert_by_path() {
    let mut v = map_of(vec![("a", Value::from(1))]);

    let expected_1 = map_of(vec![("a", Value::from(1)), ("b", Value::from(2))]);

    let expected_2 = map_of(vec![
        ("a", Value::from(1)),
        ("b", Value::from(2)),
        ("c", map_of(vec![("ca", Value::from(31))])),
    ]);

    assert_eq!(v.insert_by_path("b", Value::from(2)), None);
    assert_eq!(v, expected_1);
    assert_eq!(v.insert_by_path("c.ca", Value::from(31)), None);
    assert_eq!(v, expected_2);
}

#[test]
fn insert_by_path_overwrite() {
    let mut v = Value::from(1);

    let expected_1 = map_of(vec![("a", Value::from(1))]);

    assert_eq!(v.insert_by_path("a", Value::from(1)), None);
    assert_eq!(v, expected_1);
    assert_eq!(
        v.insert_by_path("a", Value::from(2)).unwrap(),
        Value::from(1)
    );
}

#[test]
fn partial_eq_u64() {
    let mut v = Value::from(1u64);
    let other = 1u64;
    assert_eq!(&v, other);
    assert_eq!(&mut v, other);
    assert_eq!(v, other);
    assert_eq!(other, v);
}

#[test]
fn partial_eq_f64() {
    let mut v = Value::from(FloatBits { bits: 1f64.to_bits() });
    let other = FloatBits { bits: 1f64.to_bits() };
    assert_eq!(&v, other);
    assert_eq!(&mut v, other);
    assert_eq!(v, other);
    assert_eq!(other, v);
}

#[test]
fn partial_eq_bool() {
    let mut v = Value::from(true);
    let other = true;
    assert_eq!(&v, other);
    assert_eq!(&mut v, other);
    assert_eq!(v, other);
    assert_eq!(other, v);
}

#[test]
fn partial_eq_str() {
    let mut v = Value::from_str_slice("aiueo");
    let other = "aiueo";
    assert_eq!(&v, other);
    assert_eq!(&mut v, other);
    assert_eq!(v, other);
    assert_eq!(other, v);
}

#[test]
fn partial_eq_string() {
    let v = Value::from_str_slice("aiueo");
    let other = "aiueo".to_string();
    assert_eq!(v, other);
    assert_eq!(other, v);
}

#[test]
fn ord_integer() {
    let small = Value::Integer(1);
    let big = Value::Integer(2);
    assert_eq!(small < big, true);
}

#[test]
fn ord_integer_number() {
    let small = Value::Integer(1);
    let big = Value::Number(FloatBits { bits: 1.1f64.to_bits() });
    assert_eq!(small < big, true);
}

#[test]
fn ord_integer_string() {
    let small = Value::Integer(2);
    let big = Value::String("1".to_string());
    assert_eq!(small < big, true);
}

// ---------------------------------------------------------------------------
// reading integers

#[test]
fn parse_u8_from_u8_0() {
    assert_eq!(Value::from(0u8).parse_integer::<u8>(), Some(0u8));
}

#[test]
fn parse_u8_from_u8_max() {
    assert_eq!(Value::from(u8::MAX).parse_integer::<u8>(), Some(u8::MAX));
}

#[test]
fn parse_u8_from_u16_0() {
    assert_eq!(Value::from(0u16).parse_integer::<u8>(), Some(0u8));
}

#[test]
fn parse_u8_from_u16_max() {
    assert_eq!(Value::from(u16::MAX).parse_integer::<u8>(), None);
}

#[test]
fn parse_u8_from_u32_0() {
    assert_eq!(Value::from(0u32).parse_integer::<u8>(), Some(0u8));
}

#[test]
fn parse_u8_from_u32_max() {
    assert_eq!(Value::from(u32::MAX).parse_integer::<u8>(), None);
}

#[test]
fn parse_u8_from_u64_0() {
    assert_eq!(Value::from(0u64).parse_integer::<u8>(), Some(0u8));
}

#[test]
fn parse_u8_from_u64_max() {
    assert_eq!(Value::from(u64::MAX).parse_integer::<u8>(), None);
}

#[test]
fn parse_u16_from_u8_max() {
    assert_eq!(
        Value::from(u8::MAX).parse_integer::<u16>(),
        Some(u8::MAX as u16)
    );
}

#[test]
fn parse_u16_from_u16_max() {
    assert_eq!(Value::from(u16::MAX).parse_integer::<u16>(), Some(u16::MAX));
}

#[test]
fn parse_u16_from_u32_max() {
    assert_eq!(Value::from(u32::MAX).parse_integer::<u16>(), None);
}

#[test]
fn parse_u32_from_u32_max() {
    assert_eq!(Value::from(u32::MAX).parse_integer::<u32>(), Some(u32::MAX));
}

#[test]
fn parse_u32_from_u64_max() {
    assert_eq!(Value::from(u64::MAX).parse_integer::<u32>(), None);
}

#[test]
fn parse_u64_from_u32_max() {
    assert_eq!(
        Value::from(u32::MAX).parse_integer::<u64>(),
        Some(u32::MAX as u64)
    );
}

#[test]
fn parse_u64_from_u64_max() {
    assert_eq!(Value::from(u64::MAX).parse_integer::<u64>(), None);
}

#[test]
fn parse_integer_from_text() {
    assert_eq!(Value::from_str_slice("42").parse_integer::<u8>(), Some(42u8));
    assert_eq!(Value::from_str_slice("+42").parse_integer::<u8>(), Some(42u8));
    assert_eq!(Value::from_str_slice("-42").parse_integer::<i8>(), Some(-42i8));
    assert_eq!(Value::from_str_slice("-128").parse_integer::<i8>(), Some(i8::MIN));
    assert_eq!(Value::from_str_slice("-0").parse_integer::<u8>(), None);
    assert_eq!(Value::from_str_slice("256").parse_integer::<u8>(), None);
    assert_eq!(Value::from_str_slice("").parse_integer::<u8>(), None);
    assert_eq!(Value::from_str_slice("-").parse_integer::<i64>(), None);
    assert_eq!(Value::from_str_slice(" 1").parse_integer::<i64>(), None);
    assert_eq!(
        Value::from_str_slice("18446744073709551615").parse_integer::<u64>(),
        Some(u64::MAX)
    );
    assert_eq!(
        Value::from_str_slice("18446744073709551616").parse_integer::<u64>(),
        None
    );
    assert_eq!(
        Value::from_str_slice("-9223372036854775808").parse_integer::<i64>(),
        Some(i64::MIN)
    );
    assert_eq!(Value::from(true).parse_integer::<i64>(), None);
}

#[test]
fn parse_integer_from_negative_integer() {
    assert_eq!(Value::from(-1i64).parse_integer::<u32>(), None);
    assert_eq!(Value::from(-1i64).parse_integer::<i16>(), Some(-1i16));
    assert_eq!(Value::from(-40000i64).parse_integer::<i16>(), None);
}

// ---------------------------------------------------------------------------
// texts and time stamps

#[test]
fn parse_str_of_values() {
    assert_eq!(Value::from(true).parse_str(), Some("true".to_string()));
    assert_eq!(Value::from(false).parse_str(), Some("false".to_string()));
    assert_eq!(Value::from(-120i64).parse_str(), Some("-120".to_string()));
    assert_eq!(Value::from(0i64).parse_str(), Some("0".to_string()));
    assert_eq!(
        Value::from_str_slice("abc").parse_str(),
        Some("abc".to_string())
    );
    assert_eq!(
        Value::from(vec![0x61u8, 0x62u8]).parse_str(),
        Some("ab".to_string())
    );
    assert_eq!(Value::from(vec![0xffu8, 0xfeu8]).parse_str(), None);
    assert_eq!(Value::Null.parse_str(), None);
}

#[test]
fn parse_timestamp_of_text() {
    let t = Value::from_str_slice("2015-05-15T00:00:00+00:00")
        .parse_timestamp()
        .unwrap();
    assert_eq!(t.secs(), 1431648000);
    assert_eq!(t.nanos(), 0);
    let shifted = Value::from_str_slice("2015-05-15T09:00:00+09:00")
        .parse_timestamp()
        .unwrap();
    assert_eq!(shifted.secs(), 1431648000);
    assert_eq!(Value::from_str_slice("yesterday").parse_timestamp(), None);
    assert_eq!(Value::from(1i64).parse_timestamp(), None);
}

#[test]
fn timestamp_text() {
    let t = toy_core::data::Timestamp::from_parts(1431648000, 0).unwrap();
    assert_eq!(Value::from(t).parse_str(), Some("2015-05-15T00:00:00+00:00".to_string()));
}

#[test]
fn as_same_type_conversions() {
    let text = Value::from_str_slice("x");
    let int = Value::from(0i64);
    assert_eq!(Value::from(12i64).as_same_type(&text), Some(Value::from_str_slice("12")));
    assert_eq!(Value::from_str_slice("12").as_same_type(&int), Some(Value::from(12i64)));
    assert_eq!(Value::from_str_slice("1x").as_same_type(&int), None);
    assert_eq!(Value::Null.as_same_type(&Value::Null), Some(Value::Null));
    assert_eq!(Value::from(1i64).as_same_type(&Value::Null), None);
    assert_eq!(Value::from(true).as_same_type(&Value::from(false)), Some(Value::from(true)));
}

// ---------------------------------------------------------------------------
// order and equality

#[test]
fn order_of_values() {
    assert_eq!(Value::from(false).partial_cmp(&Value::from(true)), Some(Ordering::Less));
    assert_eq!(
        Value::from_str_slice("ab").partial_cmp(&Value::from_str_slice("b")),
        Some(Ordering::Less)
    );
    assert_eq!(
        Value::from_str_slice("ab").partial_cmp(&Value::from_str_slice("a")),
        Some(Ordering::Greater)
    );
    let nan = Value::Number(FloatBits { bits: f64::NAN.to_bits() });
    assert_eq!(nan.partial_cmp(&nan), None);
    let neg_zero = Value::Number(FloatBits { bits: (-0.0f64).to_bits() });
    let zero = Value::Number(FloatBits { bits: 0.0f64.to_bits() });
    assert_eq!(neg_zero.partial_cmp(&zero), Some(Ordering::Equal));
    let minus_one = Value::Number(FloatBits { bits: (-1.0f64).to_bits() });
    assert_eq!(minus_one.partial_cmp(&zero), Some(Ordering::Less));
    let a = seq_of(vec![Value::from(1), Value::from(2)]);
    let b = seq_of(vec![Value::from(1), Value::from(3)]);
    let c = seq_of(vec![Value::from(1)]);
    assert_eq!(a.partial_cmp(&b), Some(Ordering::Less));
    assert_eq!(c.partial_cmp(&a), Some(Ordering::Less));
    let inf = Value::Number(FloatBits { bits: f64::INFINITY.to_bits() });
    assert_eq!(inf.cmp(&Value::from(1)), Ordering::Greater);
    assert_eq!(nan.cmp(&Value::from(1)), Ordering::Less);
    assert_eq!(Value::from(3).cmp(&Value::from(1)), Ordering::Greater);
}

#[test]
fn equality_of_mappings_ignores_order() {
    let a = map_of(vec![("x", Value::from(1)), ("y", Value::from(2))]);
    let b = map_of(vec![("y", Value::from(2)), ("x", Value::from(1))]);
    assert_eq!(a, b);
    let c = map_of(vec![("y", Value::from(2)), ("x", Value::from(3))]);
    assert!(a != c);
}

#[test]
fn nan_is_not_equal_to_itself() {
    let nan = Value::Number(FloatBits { bits: f64::NAN.to_bits() });
    assert!(nan != nan.clone());
}

#[test]
fn is_same_type_of_values() {
    assert!(Value::from(1).is_same_type(&Value::from(2)));
    assert!(!Value::from(1).is_same_type(&Value::from_str_slice("2")));
}

#[test]
fn u64_beyond_i64_is_null() {
    assert_eq!(Value::from(u64::MAX), Value::Null);
    assert_eq!(Value::from(5u64).as_u64(), Some(5));
}

#[test]
fn path_doc_example() {
    let v = map_of(vec![
        ("a", Value::from(1)),
        (
            "b",
            map_of(vec![
                ("x", Value::from(2)),
                ("y", seq_of(vec![Value::from(100), Value::from(200)])),
            ]),
        ),
    ]);
    assert_eq!(v.path("a").unwrap(), &Value::from(1));
    assert_eq!(v.path("b.x").unwrap(), &Value::from(2));
    assert_eq!(v.path("b.y.1").unwrap(), &Value::from(200));
    assert_eq!(v.path("").unwrap(), &v);
    assert_eq!(v.path("b.y.01"), None);
    assert_eq!(v.path("b.y.+1"), None);
    assert_eq!(v.path("b.y.2"), None);
    assert_eq!(v.path("a.x"), None);
}

#[test]
fn insert_by_path_doc_example() {
    let mut v = map_of(vec![("a", Value::from(1))]);
    let expected = map_of(vec![
        ("a", Value::from(1)),
        ("b", map_of(vec![("x", Value::from(2))])),
    ]);
    let _ = v.insert_by_path("b.x", Value::from(2));
    assert_eq!(v, expected);
    assert_eq!(v.insert_by_path("", Value::from(3)), None);
    assert_eq!(v, expected);
}

#[test]
fn insert_then_lookup_by_path() {
    let mut v = map_of(vec![("a", map_of(vec![("b", Value::from(1))]))]);
    assert_eq!(v.insert_by_path("a.b", Value::from(5)), Some(Value::from(1)));
    assert_eq!(v.path("a.b").unwrap(), &Value::from(5));
    assert_eq!(v.path("a").unwrap().as_map().unwrap().len(), 1);
}

#[test]
fn integer_text_reads_back() {
    for i in [0i64, 7, -7, i64::MAX, i64::MIN, 1234567890] {
        let text = Value::from(i).parse_str().unwrap();
        assert_eq!(Value::String(text).parse_integer::<i64>(), Some(i));
    }
}

#[test]
fn order_reversed_and_reflexive() {
    let a = seq_of(vec![Value::from(1), Value::from_str_slice("x")]);
    let b = seq_of(vec![Value::from(1), Value::from_str_slice("y")]);
    assert_eq!(a.partial_cmp(&b), Some(Ordering::Less));
    assert_eq!(b.partial_cmp(&a), Some(Ordering::Greater));
    assert_eq!(a.partial_cmp(&a), Some(Ordering::Equal));
    let m = map_of(vec![("k", Value::from(1))]);
    assert_eq!(m.partial_cmp(&m.clone()), Some(Ordering::Equal));
    assert_eq!(m.partial_cmp(&map_of(vec![("k", Value::from(2))])), None);
}

#[test]
fn push_and_insert_entries() {
    let mut s = Value::Null;
    s.push_element(Value::from(1));
    s.push_element(Value::from(2));
    assert_eq!(s, seq_of(vec![Value::from(1), Value::from(2)]));
    let mut m = Value::from(3);
    m.insert_entry("a".to_string(), Value::from(1));
    m.insert_entry("a".to_string(), Value::from(4));
    assert_eq!(m, map_of(vec![("a", Value::from(4))]));
    assert_eq!(
        Value::variant("V", Value::from(1)),
        map_of(vec![("V", Value::from(1))])
    );
}

#[test]
fn equality_is_symmetric_and_transitive() {
    let a = map_of(vec![("x", Value::from(1)), ("y", seq_of(vec![Value::from(2)]))]);
    let b = map_of(vec![("y", seq_of(vec![Value::from(2)])), ("x", Value::from(1))]);
    let zero = Value::Number(FloatBits { bits: 0.0f64.to_bits() });
    let neg_zero = Value::Number(FloatBits { bits: (-0.0f64).to_bits() });
    let c = map_of(vec![("x", Value::from(1)), ("y", seq_of(vec![Value::from(2)]))]);
    assert_eq!(a, b);
    assert_eq!(b, a);
    assert_eq!(b, c);
    assert_eq!(a, c);
    assert_eq!(zero, neg_zero);
    assert_eq!(neg_zero, zero);
    let d = map_of(vec![("x", Value::from(1)), ("z", Value::from(2))]);
    assert!(a != d && d != a);
}

#[test]
fn order_reverses_with_operands() {
    let a = map_of(vec![("x", Value::from(1))]);
    let b = map_of(vec![("x", Value::from(1))]);
    let c = map_of(vec![("x", Value::from(2))]);
    assert_eq!(a.partial_cmp(&b), Some(Ordering::Equal));
    assert_eq!(a.partial_cmp(&c), None);
    assert_eq!(c.partial_cmp(&a), None);
    let s = seq_of(vec![Value::from(1), Value::from_str_slice("b")]);
    let t = seq_of(vec![Value::from(1), Value::from_str_slice("a")]);
    assert_eq!(s.partial_cmp(&t), Some(Ordering::Greater));
    assert_eq!(t.partial_cmp(&s), Some(Ordering::Less));
}

#[test]
fn order_is_transitive() {
    let a = Value::from(1);
    let b = Value::Number(FloatBits { bits: 0.5f64.to_bits() });
    let c = Value::from_str_slice("a");
    assert_eq!(a.partial_cmp(&b), Some(Ordering::Less));
    assert_eq!(b.partial_cmp(&c), Some(Ordering::Less));
    assert_eq!(a.partial_cmp(&c), Some(Ordering::Less));
    let x = seq_of(vec![Value::from_str_slice("a"), Value::from(1)]);
    let y = seq_of(vec![Value::from_str_slice("a"), Value::from(2)]);
    let z = seq_of(vec![Value::from_str_slice("b")]);
    assert_eq!(x.partial_cmp(&y), Some(Ordering::Less));
    assert_eq!(y.partial_cmp(&z), Some(Ordering::Less));
    assert_eq!(x.partial_cmp(&z), Some(Ordering::Less));
}

#[test]
fn path_lookup_composes() {
    let v = map_of(vec![(
        "a",
        map_of(vec![("b", seq_of(vec![Value::from(1), Value::from(2)]))]),
    )]);
    let direct = v.path("a.b.1");
    let stepwise = v.path("a").and_then(|t| t.path("b.1"));
    assert_eq!(direct, Some(&Value::from(2)));
    assert_eq!(direct, stepwise);
    assert_eq!(v.path(""), Some(&v));
    assert_eq!(Value::from(1).path("a"), None);
}

#[test]
fn insert_by_path_returns_the_old_value() {
    let mut v = map_of(vec![("a", map_of(vec![("b", Value::from(1))]))]);
    assert_eq!(v.insert_by_path("a.b", Value::from(2)), Some(Value::from(1)));
    assert_eq!(v.insert_by_path("a.c", Value::from(3)), None);
    assert_eq!(v.insert_by_path("x.y", Value::from(4)), None);
    assert_eq!(v.path("x.y"), Some(&Value::from(4)));
}

#[test]
fn as_same_type_gives_the_kind_of_the_other() {
    assert_eq!(
        Value::from_str_slice("12").as_same_type(&Value::from(0)),
        Some(Value::Integer(12))
    );
    assert_eq!(
        Value::from(5).as_same_type(&Value::from_str_slice("x")),
        Some(Value::from_str_slice("5"))
    );
    assert_eq!(Value::from(true).as_same_type(&Value::from(0)), None);
    assert_eq!(Value::from(3).as_same_type(&Value::from(0)), Some(Value::from(3)));
}

#[test]
fn insert_by_path_creates_every_missing_level() {
    let mut v = map_of(vec![("a", Value::from(1))]);
    assert_eq!(v.insert_by_path("a.b.c", Value::from(2)), None);
    let expected = map_of(vec![(
        "a",
        map_of(vec![("b", map_of(vec![("c", Value::from(2))]))]),
    )]);
    assert_eq!(v, expected);
    assert_eq!(v.path("a.b.c"), Some(&Value::from(2)));
    let mut w = Value::from(1);
    assert_eq!(w.insert_by_path("a.b", Value::from(3)), None);
    assert_eq!(w.path("a.b"), Some(&Value::from(3)));
}
