use json2csv::effects::{MapEffect, ObjectKeysEffect, RoundEffect};
use json2csv::errors::{Error, ExpectedShape};
use json2csv::mapping::FieldMapper;
use json2csv::pointer::lookup_pointer;
use json2csv::render::to_json_text;
use json2csv::value::{Number, Value, ValueKind};

fn obj(entries: Vec<(&str, Value)>) -> Value {
    Value::Obj(entries.into_iter().map(|(k, v)| (k.to_string(), v)).collect())
}

fn s(text: &str) -> Value {
    Value::Str(text.to_string())
}

#[test]
fn empty_pointer_names_the_whole_record() {
    let v = obj(vec![("a", Value::Null)]);
    assert_eq!(lookup_pointer(&v, ""), Some(obj(vec![("a", Value::Null)])));
}

#[test]
fn pointer_walks_objects_and_arrays() {
    let v = obj(vec![(
        "a",
        obj(vec![("b", Value::Arr(vec![s("zero"), s("one")]))]),
    )]);
    assert_eq!(lookup_pointer(&v, "/a/b/1"), Some(s("one")));
    assert_eq!(lookup_pointer(&v, "/a/b/2"), None);
    // indexes with a redundant leading zero or a sign do not resolve
    assert_eq!(lookup_pointer(&v, "/a/b/01"), None);
    assert_eq!(lookup_pointer(&v, "/a/b/+1"), None);
    // a pointer without its leading slash does not resolve
    assert_eq!(lookup_pointer(&v, "a/b"), None);
}

#[test]
fn pointer_unescapes_tokens() {
    let v = obj(vec![("a/b", s("slash")), ("m~n", s("tilde"))]);
    assert_eq!(lookup_pointer(&v, "/a~1b"), Some(s("slash")));
    assert_eq!(lookup_pointer(&v, "/m~0n"), Some(s("tilde")));
}

#[test]
fn missing_field_carries_the_exact_pointer() {
    let record = obj(vec![("a", obj(vec![]))]);
    let mapper = FieldMapper::PathPointer("/a/b/c".to_string());
    assert_eq!(
        mapper.resolve(&record),
        Err(Error::MissingField { pointer: "/a/b/c".to_string() })
    );
}

#[test]
fn chain_order_fails_at_the_second_step() {
    let record = obj(vec![("n", Value::Num(Number::Dec { neg: false, mantissa: 25, exp10: -1 }))]);
    let mapper = FieldMapper::WithEffects {
        pointer: "/n".to_string(),
        effects: vec![
            MapEffect::Round(RoundEffect { decimals: 0 }),
            MapEffect::ObjectKeys(ObjectKeysEffect),
        ],
    };
    assert_eq!(
        mapper.resolve(&record),
        Err(Error::TypeMismatch { expected: ExpectedShape::Object, actual: ValueKind::Number })
    );
}

#[test]
fn bare_pointer_returns_the_value_unchanged() {
    let record = obj(vec![("n", Value::Arr(vec![Value::Bool(true), Value::Null]))]);
    let mapper = FieldMapper::PathPointer("/n".to_string());
    assert_eq!(
        mapper.resolve(&record),
        Ok(Value::Arr(vec![Value::Bool(true), Value::Null]))
    );
}

#[test]
fn render_atoms() {
    assert_eq!(to_json_text(&Value::Null), "null");
    assert_eq!(to_json_text(&Value::Bool(true)), "true");
    assert_eq!(to_json_text(&Value::Bool(false)), "false");
    assert_eq!(to_json_text(&Value::Num(Number::UInt(0))), "0");
    assert_eq!(to_json_text(&Value::Num(Number::UInt(1234567890))), "1234567890");
    assert_eq!(to_json_text(&Value::Num(Number::Int(-57))), "-57");
}

#[test]
fn render_decimals() {
    let d = |neg, mantissa, exp10| Value::Num(Number::Dec { neg, mantissa, exp10 });
    assert_eq!(to_json_text(&d(false, 29, -2)), "0.29");
    assert_eq!(to_json_text(&d(false, 15, -1)), "1.5");
    assert_eq!(to_json_text(&d(true, 15, -1)), "-1.5");
    assert_eq!(to_json_text(&d(false, 5, 0)), "5.0");
    assert_eq!(to_json_text(&d(false, 5, 2)), "500.0");
    assert_eq!(to_json_text(&d(false, 7, -3)), "0.007");
    assert_eq!(to_json_text(&d(true, 0, 0)), "-0.0");
}

#[test]
fn render_strings_keep_quotes_and_escapes() {
    assert_eq!(to_json_text(&s("x")), "\"x\"");
    assert_eq!(to_json_text(&s("a\"b\\c")), "\"a\\\"b\\\\c\"");
    assert_eq!(to_json_text(&s("t\tn\n")), "\"t\\tn\\n\"");
    assert_eq!(to_json_text(&s("\u{1}")), "\"\\u0001\"");
    assert_eq!(to_json_text(&s("\u{1f}")), "\"\\u001f\"");
}

#[test]
fn render_containers() {
    let v = Value::Arr(vec![s("a"), Value::Num(Number::UInt(2)), Value::Null]);
    assert_eq!(to_json_text(&v), "[\"a\",2,null]");
    let o = obj(vec![("a", Value::Num(Number::UInt(1))), ("b", Value::Arr(vec![]))]);
    assert_eq!(to_json_text(&o), "{\"a\":1,\"b\":[]}");
    assert_eq!(to_json_text(&Value::Obj(vec![])), "{}");
}

#[test]
fn render_type_extremes() {
    assert_eq!(
        to_json_text(&Value::Num(Number::UInt(u64::MAX))),
        "18446744073709551615"
    );
    assert_eq!(
        to_json_text(&Value::Num(Number::Int(i64::MIN))),
        "-9223372036854775808"
    );
}

#[test]
fn rounding_saturates_at_the_type_bounds() {
    let e = MapEffect::Round(RoundEffect { decimals: 0 });
    // 5 * 10^25 does not fit an unsigned cell and clamps to the largest value
    let big = Value::Num(Number::Dec { neg: false, mantissa: 5, exp10: 25 });
    assert_eq!(e.apply(&big).unwrap(), Value::Num(Number::UInt(u64::MAX)));
    // a tiny magnitude rounds to a zero decimal
    let tiny = Value::Num(Number::Dec { neg: false, mantissa: 1, exp10: -30 });
    let r = MapEffect::Round(RoundEffect { decimals: 2 }).apply(&tiny).unwrap();
    assert_eq!(r, Value::Num(Number::Dec { neg: false, mantissa: 0, exp10: -2 }));
}
