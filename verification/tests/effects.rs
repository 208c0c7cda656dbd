use json2csv::effects::{
    FilterKeysEffect, MapEffect, ObjectKeysEffect, RoundEffect, TruthyFilterEffect, TruthyKeys,
};
use json2csv::errors::{Error, ExpectedShape};
use json2csv::value::{is_truthy, Number, Value, ValueKind};

fn obj(entries: Vec<(&str, Value)>) -> Value {
    Value::Obj(entries.into_iter().map(|(k, v)| (k.to_string(), v)).collect())
}

fn s(text: &str) -> Value {
    Value::Str(text.to_string())
}

#[test]
fn object_keys_preserves_order() {
    let v = obj(vec![("a", Value::Num(Number::UInt(1))), ("b", Value::Num(Number::UInt(2)))]);
    let r = ObjectKeysEffect.apply(&v).unwrap();
    assert_eq!(r, Value::Arr(vec![s("a"), s("b")]));
}

#[test]
fn object_keys_rejects_non_object() {
    let r = ObjectKeysEffect.apply(&Value::Num(Number::UInt(3)));
    assert_eq!(
        r,
        Err(Error::TypeMismatch { expected: ExpectedShape::Object, actual: ValueKind::Number })
    );
}

#[test]
fn truthiness_catalog() {
    assert!(is_truthy(&Value::Num(Number::UInt(0))));
    assert!(!is_truthy(&s("")));
    assert!(!is_truthy(&Value::Arr(vec![])));
    assert!(!is_truthy(&Value::Null));
    assert!(!is_truthy(&Value::Bool(false)));
    assert!(is_truthy(&s("x")));
    assert!(!is_truthy(&Value::Obj(vec![])));
    assert!(is_truthy(&Value::Bool(true)));
}

#[test]
fn filter_keys_both_empty_gives_empty_object() {
    let e = FilterKeysEffect { included: vec![], excluded: vec![] };
    let v = obj(vec![("a", Value::Num(Number::UInt(1))), ("b", s("x"))]);
    assert_eq!(e.apply(&v).unwrap(), Value::Obj(vec![]));
}

#[test]
fn filter_keys_include_or_exclude() {
    let v = obj(vec![
        ("a", Value::Num(Number::UInt(1))),
        ("b", Value::Num(Number::UInt(2))),
        ("c", Value::Num(Number::UInt(3))),
    ]);
    let inc = FilterKeysEffect { included: vec!["b".to_string()], excluded: vec![] };
    assert_eq!(inc.apply(&v).unwrap(), obj(vec![("b", Value::Num(Number::UInt(2)))]));
    let exc = FilterKeysEffect { included: vec![], excluded: vec!["b".to_string()] };
    assert_eq!(
        exc.apply(&v).unwrap(),
        obj(vec![("a", Value::Num(Number::UInt(1))), ("c", Value::Num(Number::UInt(3)))])
    );
    // the two tests combine by OR: b passes the inclusion list, every other
    // key passes the exclusion list, so everything is kept
    let both = FilterKeysEffect {
        included: vec!["b".to_string()],
        excluded: vec!["b".to_string()],
    };
    assert_eq!(
        both.apply(&v).unwrap(),
        obj(vec![
            ("a", Value::Num(Number::UInt(1))),
            ("b", Value::Num(Number::UInt(2))),
            ("c", Value::Num(Number::UInt(3))),
        ])
    );
}

#[test]
fn truthy_keys_zero_is_truthy_empty_string_is_not() {
    let e = TruthyKeys { include_fields: vec![], exclude_fields: vec![] };
    let v = obj(vec![("a", Value::Num(Number::UInt(1))), ("b", Value::Num(Number::UInt(0))), (
        "c",
        s(""),
    )]);
    assert_eq!(e.apply(&v).unwrap(), Value::Arr(vec![s("a"), s("b")]));
}

#[test]
fn truthy_keys_narrows_sequentially() {
    let v = obj(vec![
        ("a", Value::Num(Number::UInt(1))),
        ("b", Value::Num(Number::UInt(2))),
        ("c", Value::Num(Number::UInt(3))),
    ]);
    let e = TruthyKeys {
        include_fields: vec!["a".to_string(), "b".to_string()],
        exclude_fields: vec!["b".to_string()],
    };
    assert_eq!(e.apply(&v).unwrap(), Value::Arr(vec![s("a")]));
}

#[test]
fn truthy_filter_on_object_and_array() {
    let e = TruthyFilterEffect { invert: false };
    let v = obj(vec![("a", Value::Num(Number::UInt(1))), ("b", s("")), ("c", Value::Bool(true))]);
    assert_eq!(
        e.apply(&v).unwrap(),
        obj(vec![("a", Value::Num(Number::UInt(1))), ("c", Value::Bool(true))])
    );
    let arr = Value::Arr(vec![Value::Null, s("x"), Value::Num(Number::UInt(0)), s("")]);
    assert_eq!(
        e.apply(&arr).unwrap(),
        Value::Arr(vec![s("x"), Value::Num(Number::UInt(0))])
    );
    let inv = TruthyFilterEffect { invert: true };
    assert_eq!(inv.apply(&arr).unwrap(), Value::Arr(vec![Value::Null, s("")]));
    assert_eq!(
        inv.apply(&s("zzz")),
        Err(Error::TypeMismatch {
            expected: ExpectedShape::ObjectOrArray,
            actual: ValueKind::Str,
        })
    );
}

#[test]
fn round_floor_ceil_at_zero_decimals() {
    let half_up = |v: Value| MapEffect::Round(RoundEffect { decimals: 0 }).apply(&v).unwrap();
    // 1.5 rounds away from zero to 2
    assert_eq!(
        half_up(Value::Num(Number::Dec { neg: false, mantissa: 15, exp10: -1 })),
        Value::Num(Number::UInt(2))
    );
    // 2.5 rounds away from zero to 3
    assert_eq!(
        half_up(Value::Num(Number::Dec { neg: false, mantissa: 25, exp10: -1 })),
        Value::Num(Number::UInt(3))
    );
    // -1.2 rounds to -1, which clamps to 0 as an unsigned cell
    assert_eq!(
        half_up(Value::Num(Number::Dec { neg: true, mantissa: 12, exp10: -1 })),
        Value::Num(Number::UInt(0))
    );
}

#[test]
fn rounding_with_decimals_keeps_a_decimal() {
    let e = MapEffect::Round(RoundEffect { decimals: 2 });
    // 0.285 at two decimals rounds half away from zero to 0.29
    let r = e
        .apply(&Value::Num(Number::Dec { neg: false, mantissa: 285, exp10: -3 }))
        .unwrap();
    assert_eq!(r, Value::Num(Number::Dec { neg: false, mantissa: 29, exp10: -2 }));
    // an integer at two decimals becomes a decimal of the same value
    let i = e.apply(&Value::Num(Number::UInt(5))).unwrap();
    assert_eq!(i, Value::Num(Number::Dec { neg: false, mantissa: 5, exp10: 0 }));
}

#[test]
fn floor_and_ceil_respect_the_sign() {
    let floor = |v: Value| {
        json2csv::effects::FloorEffect { decimals: 0 }.apply(&v).unwrap()
    };
    let ceil = |v: Value| {
        json2csv::effects::CeilEffect { decimals: 0 }.apply(&v).unwrap()
    };
    let pos = Value::Num(Number::Dec { neg: false, mantissa: 17, exp10: -1 });  // 1.7
    let neg = Value::Num(Number::Dec { neg: true, mantissa: 17, exp10: -1 });  // -1.7
    assert_eq!(floor(pos), Value::Num(Number::UInt(1)));
    let pos = Value::Num(Number::Dec { neg: false, mantissa: 17, exp10: -1 });
    assert_eq!(ceil(pos), Value::Num(Number::UInt(2)));
    // floor(-1.7) is -2, ceil(-1.7) is -1; both clamp to 0 unsigned
    assert_eq!(floor(neg), Value::Num(Number::UInt(0)));
    let neg = Value::Num(Number::Dec { neg: true, mantissa: 17, exp10: -1 });
    assert_eq!(ceil(neg), Value::Num(Number::UInt(0)));
}

#[test]
fn rounding_rejects_non_numbers() {
    let e = MapEffect::Round(RoundEffect { decimals: 0 });
    assert_eq!(
        e.apply(&Value::Null),
        Err(Error::TypeMismatch {
            expected: ExpectedShape::NumberShape,
            actual: ValueKind::Null,
        })
    );
}
