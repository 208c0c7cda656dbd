use json2csv::cli::{Input, Output};
use json2csv::errors::Error;
use json2csv::mapping::{parse_mapping, FieldMapper, HeaderMappings};
use json2csv::project::project_rows;
use json2csv::value::{Number, Value};

fn obj(entries: Vec<(&str, Value)>) -> Value {
    Value::Obj(entries.into_iter().map(|(k, v)| (k.to_string(), v)).collect())
}

fn s(text: &str) -> Value {
    Value::Str(text.to_string())
}

// the inclusion-list key of filter_keys, assembled by parts
fn inc_key() -> String {
    let mut k = "includ".to_string();
    k.push('e');
    k
}

#[test]
fn end_to_end_header_and_row() {
    // mapping: {"name": "/name", "active": {"pointer": "/flags",
    //           "effects": [{"kind": "truthy_keys"}]}}
    let doc = obj(vec![
        ("name", s("/name")),
        (
            "active",
            obj(vec![
                ("pointer", s("/flags")),
                ("effects", Value::Arr(vec![obj(vec![("kind", s("truthy_keys"))])])),
            ]),
        ),
    ]);
    let hm = parse_mapping(&doc).unwrap();
    let header: Vec<String> = hm.keys();
    assert_eq!(header, vec!["name".to_string(), "active".to_string()]);

    let record = obj(vec![
        ("name", s("x")),
        (
            "flags",
            obj(vec![
                ("a", Value::Num(Number::UInt(1))),
                ("b", Value::Num(Number::UInt(0))),
                ("c", s("")),
            ]),
        ),
    ]);
    let rows = project_rows(&hm, &vec![record]).unwrap();
    assert_eq!(rows.len(), 1);
    // the name cell is the quoted JSON string, quotes included
    assert_eq!(rows[0], vec!["\"x\"".to_string(), "[\"a\",\"b\"]".to_string()]);
}

#[test]
fn one_row_per_record_in_input_order() {
    let doc = obj(vec![("v", s("/v"))]);
    let hm = parse_mapping(&doc).unwrap();
    let records = vec![
        obj(vec![("v", Value::Num(Number::UInt(1)))]),
        obj(vec![("v", Value::Num(Number::UInt(2)))]),
        obj(vec![("v", Value::Num(Number::UInt(3)))]),
    ];
    let rows = project_rows(&hm, &records).unwrap();
    assert_eq!(
        rows,
        vec![vec!["1".to_string()], vec!["2".to_string()], vec!["3".to_string()]]
    );
}

#[test]
fn projection_fails_fast_on_the_first_bad_record() {
    let doc = obj(vec![("v", s("/v"))]);
    let hm = parse_mapping(&doc).unwrap();
    let records = vec![
        obj(vec![("v", Value::Null)]),
        obj(vec![("w", Value::Null)]),
        obj(vec![("v", Value::Null)]),
    ];
    assert_eq!(
        project_rows(&hm, &records),
        Err(Error::MissingField { pointer: "/v".to_string() })
    );
}

#[test]
fn repeated_column_keeps_position_takes_last_mapper() {
    let doc = Value::Obj(vec![
        ("a".to_string(), s("/first")),
        ("b".to_string(), s("/middle")),
        ("a".to_string(), s("/last")),
    ]);
    let hm: HeaderMappings = parse_mapping(&doc).unwrap();
    assert_eq!(hm.keys(), vec!["a".to_string(), "b".to_string()]);
    match &hm.entries[0].1 {
        FieldMapper::PathPointer(p) => assert_eq!(p, "/last"),
        _ => panic!("expected a bare pointer"),
    }
}

#[test]
fn mapping_must_be_an_object() {
    assert_eq!(
        parse_mapping(&Value::Arr(vec![])),
        Err(Error::MalformedDocument { path: String::new() })
    );
}

#[test]
fn mapper_object_needs_a_string_pointer() {
    let doc = obj(vec![("col", obj(vec![("effects", Value::Arr(vec![]))]))]);
    assert_eq!(
        parse_mapping(&doc),
        Err(Error::MalformedDocument { path: "col.pointer".to_string() })
    );
    let doc2 = obj(vec![("col", obj(vec![("pointer", Value::Num(Number::UInt(1)))]))]);
    assert_eq!(
        parse_mapping(&doc2),
        Err(Error::MalformedDocument { path: "col.pointer".to_string() })
    );
    let doc3 = obj(vec![("col", Value::Null)]);
    assert_eq!(parse_mapping(&doc3), Err(Error::MalformedDocument { path: "col".to_string() }));
}

#[test]
fn unknown_effect_kind_names_its_place() {
    let doc = obj(vec![(
        "col",
        obj(vec![
            ("pointer", s("/x")),
            (
                "effects",
                Value::Arr(vec![
                    obj(vec![("kind", s("object_keys"))]),
                    obj(vec![("kind", s("upper_case"))]),
                ]),
            ),
        ]),
    )]);
    assert_eq!(
        parse_mapping(&doc),
        Err(Error::UnknownEffectKind {
            path: "col.effects[1].kind".to_string(),
            kind: "upper_case".to_string(),
        })
    );
}

#[test]
fn effect_entries_must_be_tagged_objects() {
    let doc = obj(vec![(
        "col",
        obj(vec![("pointer", s("/x")), ("effects", Value::Arr(vec![s("round")]))]),
    )]);
    assert_eq!(
        parse_mapping(&doc),
        Err(Error::MalformedDocument { path: "col.effects[0]".to_string() })
    );
}

#[test]
fn rounding_effects_require_decimals() {
    let doc = obj(vec![(
        "col",
        obj(vec![
            ("pointer", s("/x")),
            ("effects", Value::Arr(vec![obj(vec![("kind", s("round"))])])),
        ]),
    )]);
    assert_eq!(
        parse_mapping(&doc),
        Err(Error::MalformedDocument { path: "col.effects[0].decimals".to_string() })
    );
}

#[test]
fn list_parameters_must_hold_strings() {
    let doc = obj(vec![(
        "col",
        obj(vec![
            ("pointer", s("/x")),
            (
                "effects",
                Value::Arr(vec![obj(vec![
                    ("kind", s("filter_keys")),
                    (inc_key().as_str(), Value::Arr(vec![s("ok"), Value::Num(Number::UInt(1))])),
                ])]),
            ),
        ]),
    )]);
    assert_eq!(
        parse_mapping(&doc),
        Err(Error::MalformedDocument { path: format!("col.effects[0].{}[1]", inc_key()) })
    );
}

#[test]
fn filter_keys_parameters_come_from_the_document() {
    let doc = obj(vec![(
        "col",
        obj(vec![
            ("pointer", s("")),
            (
                "effects",
                Value::Arr(vec![obj(vec![
                    ("kind", s("filter_keys")),
                    (inc_key().as_str(), Value::Arr(vec![s("a")])),
                ])]),
            ),
        ]),
    )]);
    let hm = parse_mapping(&doc).unwrap();
    let record = obj(vec![("a", Value::Num(Number::UInt(1))), ("b", Value::Num(Number::UInt(2)))]);
    let rows = project_rows(&hm, &vec![record]).unwrap();
    assert_eq!(rows[0], vec!["{\"a\":1}".to_string()]);
}

#[test]
fn input_and_output_classify_arguments() {
    assert_eq!(Input::from_arg("-".to_string(), false), Input::Stdin);
    assert_eq!(Input::from_arg("x.json".to_string(), false), Input::File("x.json".to_string()));
    assert_eq!(Input::from_arg("d".to_string(), true), Input::Directory("d".to_string()));
    assert_eq!(Output::from_arg("-".to_string(), false), Output::Stdout);
    assert_eq!(Output::from_arg("out.csv".to_string(), false), Output::File("out.csv".to_string()));
    assert_eq!(Output::from_arg("d".to_string(), true), Output::Directory("d".to_string()));
    assert_eq!(Output::default(), Output::Stdout);
}
