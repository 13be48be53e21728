use massload::transform::dsl::wire::{
    expand_from_value, field_transform_from_value, field_transform_to_value, operation_from_value,
    operation_to_value, size_from_value, size_to_value, WireError,
};
use massload::{
    example_matrix, ColumnVariant, Entry, ExpandConfig, FieldTransform, Mapping, Operation,
    SourceFormat, TransformMap, TransformationMatrix, Value,
};

fn text(s: &str) -> Value {
    Value::String(s.to_string())
}

fn object(fields: Vec<(&str, Value)>) -> Value {
    Value::Object(
        fields.into_iter().map(|(k, v)| Entry { key: k.to_string(), value: v }).collect(),
    )
}

#[test]
fn test_matrix_serialization() {
    let matrix = example_matrix();
    let json = matrix.to_value();
    let parsed = TransformationMatrix::from_value(&json).unwrap();
    assert_eq!(parsed.version, matrix.version);
}

#[test]
fn example_matrix_comes_back_as_it_was() {
    let matrix = example_matrix();
    assert_eq!(TransformationMatrix::from_value(&matrix.to_value()), Ok(matrix));
}

#[test]
fn matrix_with_every_part_comes_back_as_it_was() {
    let mut mapping = Mapping::new();
    mapping.insert("C".to_string(), "Composer".to_string());
    mapping.insert("A".to_string(), "Author".to_string());
    let all_operations = vec![
        Operation::Trim,
        Operation::Uppercase,
        Operation::Lowercase,
        Operation::Replace { pattern: "a+".to_string(), value: "b".to_string() },
        Operation::PadStart { length: 11, char: "0".to_string() },
        Operation::PadEnd { length: usize::MAX, char: "x".to_string() },
        Operation::ExtractYear,
        Operation::EnsurePrefix { value: "T".to_string() },
        Operation::EnsureSuffix { value: "!".to_string() },
        Operation::Lookup {
            mapping: mapping.clone(),
            case_insensitive: true,
            default_unmapped: Some("Other".to_string()),
        },
        Operation::Lookup {
            mapping: Mapping::new(),
            case_insensitive: false,
            default_unmapped: None,
        },
        Operation::Split { separator: ";".to_string() },
        Operation::ToBoolean { true_values: vec!["oui".to_string(), "x".to_string()] },
        Operation::ToNumber,
        Operation::Substring { start: 2, length: Some(4) },
        Operation::Substring { start: 0, length: None },
        Operation::Alphanumeric,
        Operation::DigitsOnly,
    ];
    let mut rule = FieldTransform::from_sources(vec!["A".to_string(), "B".to_string()], "/");
    rule.operations = all_operations;
    rule.default = Some(object(vec![("nested", Value::Array(vec![Value::Number(-1)]))]));
    rule.required = true;
    let mut overrides = TransformMap::new();
    overrides.insert("role".to_string(), FieldTransform::from_constant(text("Composer")));
    let mut matrix = TransformationMatrix::new();
    matrix.version = "2.0".to_string();
    matrix.description = "all of it".to_string();
    matrix.source_format = Some(SourceFormat {
        delimiter: Some('\t'),
        encoding: None,
        header_rows: 2,
    });
    matrix.transforms.insert("title".to_string(), rule);
    matrix.transforms.insert("iswc".to_string(), FieldTransform::from_source("Code"));
    matrix.expand = Some(ExpandConfig::MultipleColumns {
        variants: vec![
            ColumnVariant { condition_column: Some("C".to_string()), overrides },
            ColumnVariant { condition_column: None, overrides: TransformMap::new() },
        ],
    });
    assert_eq!(TransformationMatrix::from_value(&matrix.to_value()), Ok(matrix.clone()));

    matrix.expand = Some(ExpandConfig::SplitRole {
        source: "Role".to_string(),
        separator: "+".to_string(),
        mapping,
    });
    assert_eq!(TransformationMatrix::from_value(&matrix.to_value()), Ok(matrix));
}

#[test]
fn a_null_constant_does_not_come_back() {
    let mut matrix = TransformationMatrix::new();
    matrix.transforms.insert("a".to_string(), FieldTransform::from_constant(Value::Null));
    let parsed = TransformationMatrix::from_value(&matrix.to_value()).unwrap();
    assert_ne!(parsed, matrix);
    assert_eq!(parsed.transforms.get("a").unwrap().constant, None);
}

#[test]
fn wire_form_of_a_rule() {
    let rule = FieldTransform::from_source("Code ISWC")
        .with_operation(Operation::Trim)
        .with_operation(Operation::EnsurePrefix { value: "T".to_string() })
        .required();
    let expected = object(vec![
        ("source", text("Code ISWC")),
        ("sources", Value::Null),
        ("concat_separator", text(" ")),
        ("constant", Value::Null),
        (
            "operations",
            Value::Array(vec![
                object(vec![("type", text("trim"))]),
                object(vec![("type", text("ensure_prefix")), ("value", text("T"))]),
            ]),
        ),
        ("default", Value::Null),
        ("required", Value::Bool(true)),
    ]);
    assert_eq!(field_transform_to_value(&rule), expected);
    assert_eq!(field_transform_from_value(&expected), Ok(rule));
}

#[test]
fn wire_form_of_the_lookup_operation() {
    let mut mapping = Mapping::new();
    mapping.insert("CA".to_string(), "Composer".to_string());
    let op = Operation::Lookup { mapping, case_insensitive: true, default_unmapped: None };
    let expected = object(vec![
        ("type", text("map")),
        ("mapping", object(vec![("CA", text("Composer"))])),
        ("case_insensitive", Value::Bool(true)),
        ("default_unmapped", Value::Null),
    ]);
    assert_eq!(operation_to_value(&op), expected);
    assert_eq!(operation_from_value(&expected), Ok(op));
}

#[test]
fn reading_fills_in_the_defaults() {
    let minimal = object(vec![("transforms", object(vec![("t", object(vec![]))]))]);
    let matrix = TransformationMatrix::from_value(&minimal).unwrap();
    assert_eq!(matrix.version, "1.0");
    assert_eq!(matrix.description, "");
    assert_eq!(matrix.source_format, None);
    assert_eq!(matrix.expand, None);
    let rule = matrix.transforms.get("t").unwrap();
    assert_eq!(rule.source, None);
    assert_eq!(rule.sources, None);
    assert_eq!(rule.concat_separator, " ");
    assert_eq!(rule.constant, None);
    assert!(rule.operations.is_empty());
    assert_eq!(rule.default, None);
    assert!(!rule.required);

    let ops = [
        ("replace", vec![("pattern", text("x"))]),
        ("pad_start", vec![("length", Value::Number(3))]),
        ("map", vec![("mapping", object(vec![]))]),
        ("split", vec![]),
        ("to_boolean", vec![]),
        ("substring", vec![("start", Value::Number(1))]),
    ];
    let expected = vec![
        Operation::Replace { pattern: "x".to_string(), value: "".to_string() },
        Operation::PadStart { length: 3, char: "0".to_string() },
        Operation::Lookup {
            mapping: Mapping::new(),
            case_insensitive: false,
            default_unmapped: None,
        },
        Operation::Split { separator: ",".to_string() },
        Operation::ToBoolean {
            true_values: ["true", "1", "yes", "oui", "o", "y"]
                .iter()
                .map(|s| s.to_string())
                .collect(),
        },
        Operation::Substring { start: 1, length: None },
    ];
    for ((tag, mut rest), op) in ops.into_iter().zip(expected) {
        let mut fields = vec![("type", text(tag)), ("unknown", Value::Number(1))];
        fields.append(&mut rest);
        assert_eq!(operation_from_value(&object(fields)), Ok(op));
    }

    let expand = object(vec![
        ("type", text("split_role")),
        ("source", text("Role")),
        ("mapping", object(vec![])),
    ]);
    assert_eq!(
        expand_from_value(&expand),
        Ok(ExpandConfig::SplitRole {
            source: "Role".to_string(),
            separator: "+".to_string(),
            mapping: Mapping::new(),
        })
    );
    let variants = object(vec![
        ("type", text("multiple_columns")),
        ("variants", Value::Array(vec![object(vec![])])),
    ]);
    assert_eq!(
        expand_from_value(&variants),
        Ok(ExpandConfig::MultipleColumns {
            variants: vec![ColumnVariant {
                condition_column: None,
                overrides: TransformMap::new(),
            }],
        })
    );
}

fn missing(key: &str) -> WireError {
    WireError::Missing(key.to_string())
}

fn malformed(key: &str) -> WireError {
    WireError::Malformed(key.to_string())
}

#[test]
fn reading_reports_what_is_wrong() {
    assert_eq!(TransformationMatrix::from_value(&Value::Null), Err(malformed("matrix")));
    assert_eq!(TransformationMatrix::from_value(&object(vec![])), Err(missing("transforms")));
    let bad = |fields: Vec<(&str, Value)>| TransformationMatrix::from_value(&object(fields));
    assert_eq!(bad(vec![("transforms", Value::Null)]), Err(malformed("transforms")));
    assert_eq!(
        bad(vec![("version", Value::Number(1)), ("transforms", object(vec![]))]),
        Err(malformed("version"))
    );
    assert_eq!(
        bad(vec![("transforms", object(vec![("t", text("x"))]))]),
        Err(malformed("transform"))
    );
    assert_eq!(
        bad(vec![("transforms", object(vec![])), ("expand", text("x"))]),
        Err(malformed("expand"))
    );
    assert_eq!(
        bad(vec![("transforms", object(vec![])), ("source_format", Value::Bool(true))]),
        Err(malformed("source_format"))
    );
    assert_eq!(
        bad(vec![
            ("transforms", object(vec![])),
            ("source_format", object(vec![("delimiter", text(";;"))])),
        ]),
        Err(malformed("delimiter"))
    );

    let op = |fields: Vec<(&str, Value)>| operation_from_value(&object(fields));
    assert_eq!(operation_from_value(&text("trim")), Err(malformed("operation")));
    assert_eq!(op(vec![]), Err(missing("type")));
    assert_eq!(op(vec![("type", text("shout"))]), Err(malformed("type")));
    assert_eq!(op(vec![("type", text("replace"))]), Err(missing("pattern")));
    assert_eq!(op(vec![("type", text("pad_end"))]), Err(missing("length")));
    assert_eq!(
        op(vec![("type", text("pad_end")), ("length", Value::Number(-1))]),
        Err(malformed("length"))
    );
    assert_eq!(op(vec![("type", text("ensure_suffix"))]), Err(missing("value")));
    assert_eq!(op(vec![("type", text("map"))]), Err(missing("mapping")));
    assert_eq!(
        op(vec![("type", text("map")), ("mapping", object(vec![("a", Value::Number(1))]))]),
        Err(malformed("mapping"))
    );
    assert_eq!(
        op(vec![("type", text("split")), ("separator", Value::Null)]),
        Err(malformed("separator"))
    );
    assert_eq!(
        op(vec![("type", text("to_boolean")), ("true_values", Value::Array(vec![Value::Null]))]),
        Err(malformed("true_values"))
    );
    assert_eq!(op(vec![("type", text("substring"))]), Err(missing("start")));
    assert_eq!(
        expand_from_value(&object(vec![("type", text("multiple_columns"))])),
        Err(missing("variants"))
    );
    assert_eq!(missing("transforms").to_string(), "missing field `transforms`");
    assert_eq!(malformed("type").to_string(), "invalid value for `type`");
}

#[test]
fn sizes_on_the_wire() {
    assert_eq!(size_to_value(0), Value::Number(0));
    assert_eq!(size_to_value(i64::MAX as usize), Value::Number(i64::MAX));
    assert_eq!(size_to_value(usize::MAX), Value::Decimal(usize::MAX.to_string()));
    assert_eq!(size_from_value(&size_to_value(usize::MAX)), Some(usize::MAX));
    assert_eq!(size_from_value(&Value::Number(7)), Some(7));
    assert_eq!(size_from_value(&Value::Number(-7)), None);
    assert_eq!(size_from_value(&Value::Decimal("1.5".to_string())), None);
    assert_eq!(size_from_value(&Value::Decimal("18446744073709551616".to_string())), None);
    assert_eq!(size_from_value(&text("7")), None);
}

#[test]
fn a_later_entry_takes_the_place_of_an_earlier_one() {
    let twice = object(vec![(
        "transforms",
        object(vec![
            ("a", object(vec![("source", text("first"))])),
            ("b", object(vec![])),
            ("a", object(vec![("source", text("second"))])),
        ]),
    )]);
    let matrix = TransformationMatrix::from_value(&twice).unwrap();
    assert_eq!(matrix.transforms.len(), 2);
    assert_eq!(matrix.transforms.get("a"), Some(&FieldTransform::from_source("second")));
    assert_eq!(matrix.target_fields(), vec!["a".to_string(), "b".to_string()]);
}
