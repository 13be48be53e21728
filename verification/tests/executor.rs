use massload::transform::dsl::executor::{
    apply_transform, expand_row, is_empty, transform_row_with_overrides,
};
use massload::{
    example_matrix, execute, execute_hashmap, ColumnVariant, Entry, ExpandConfig, FieldTransform,
    Mapping, Operation, TransformMap, TransformResult, TransformationMatrix, Value,
};

fn text(s: &str) -> Value {
    Value::String(s.to_string())
}

fn row(cells: &[(&str, &str)]) -> Value {
    Value::Object(
        cells.iter().map(|(k, v)| Entry { key: k.to_string(), value: text(v) }).collect(),
    )
}

#[test]
fn test_execute_simple() {
    let csv_data = vec![
        row(&[
            ("Code ISWC", "T-123.456.789-0"),
            ("Titre", "  Ma Chanson  "),
            ("Role", "CA"),
            ("IPI", "123456789"),
            ("Instrumental", "oui"),
        ]),
        row(&[
            ("Code ISWC", "T9876543210"),
            ("Titre", "Another Song"),
            ("Role", "A"),
            ("IPI", "987654321"),
            ("Instrumental", "non"),
        ]),
    ];

    let matrix = example_matrix();
    let result = execute(&csv_data, &matrix);

    assert!(result.is_ok());
    assert_eq!(result.records.len(), 2);

    let first = &result.records[0];
    assert_eq!(first.get("iswc"), Some(&text("T1234567890")));
    assert_eq!(first.get("title"), Some(&text("Ma Chanson")));
    assert_eq!(first.get("creatorRole"), Some(&text("Composer")));
    assert_eq!(first.get("creatorIpi"), Some(&Value::Number(123456789)));
    assert_eq!(first.get("instrumental"), Some(&Value::Bool(true)));

    let second = &result.records[1];
    assert_eq!(second.get("creatorRole"), Some(&text("Author")));
    assert_eq!(second.get("instrumental"), Some(&Value::Bool(false)));
}

#[test]
fn test_missing_required_field() {
    let csv_data = vec![row(&[("Titre", "Missing ISWC"), ("Role", "CA")])];

    let matrix = example_matrix();
    let result = execute(&csv_data, &matrix);

    assert_eq!(result.records.len(), 0);
    assert_eq!(result.skipped.len(), 1);
    assert!(result.skipped[0].missing_fields.contains(&"iswc".to_string()));
}

#[test]
fn test_constant_value() {
    let mut matrix = TransformationMatrix::new();
    matrix.transforms.insert("language".to_string(), FieldTransform::from_constant(text("French")));

    let csv_data = vec![row(&[("any_field", "any_value")])];

    let result = execute(&csv_data, &matrix);
    assert_eq!(result.records.len(), 1);
    assert_eq!(result.records[0].get("language"), Some(&text("French")));
}

#[test]
fn test_default_value() {
    let mut matrix = TransformationMatrix::new();
    matrix.transforms.insert(
        "instrumental".to_string(),
        FieldTransform::from_source("Missing Column").with_default(Value::Bool(false)),
    );

    let csv_data = vec![row(&[("other_field", "value")])];

    let result = execute(&csv_data, &matrix);
    assert_eq!(result.records.len(), 1);
    assert_eq!(result.records[0].get("instrumental"), Some(&Value::Bool(false)));
}

#[test]
fn test_multiple_sources_concat() {
    let mut matrix = TransformationMatrix::new();
    matrix.transforms.insert(
        "title".to_string(),
        FieldTransform::from_sources(
            vec!["Title Prefix".to_string(), "Title Main".to_string()],
            " ",
        ),
    );

    let csv_data = vec![row(&[("Title Prefix", "The Amazing"), ("Title Main", "Journey")])];

    let result = execute(&csv_data, &matrix);
    assert_eq!(result.records.len(), 1);
    assert_eq!(result.records[0].get("title"), Some(&text("The Amazing Journey")));
}

#[test]
fn test_multiple_sources_skip_empty() {
    let mut matrix = TransformationMatrix::new();
    matrix.transforms.insert(
        "title".to_string(),
        FieldTransform::from_sources(
            vec!["Title Prefix".to_string(), "Title Main".to_string()],
            " ",
        ),
    );

    let csv_data = vec![row(&[("Title Prefix", ""), ("Title Main", "Solo Title")])];

    let result = execute(&csv_data, &matrix);
    assert_eq!(result.records.len(), 1);
    assert_eq!(result.records[0].get("title"), Some(&text("Solo Title")));
}

#[test]
fn skipped_row_is_reported_with_its_index_and_reason() {
    let csv_data = vec![
        row(&[("Code ISWC", "T1"), ("Titre", "ok"), ("IPI", "1")]),
        row(&[("Titre", "Missing ISWC"), ("Role", "CA")]),
    ];
    let result = execute(&csv_data, &example_matrix());
    assert_eq!(result.records.len(), 1);
    assert_eq!(result.skipped.len(), 1);
    assert_eq!(result.skipped[0].row, 1);
    assert_eq!(result.skipped[0].reason, "Missing required fields");
    assert_eq!(
        result.skipped[0].missing_fields,
        vec!["iswc".to_string(), "creatorIpi".to_string()]
    );
    assert_eq!(result.summary(), "Transformed: 1 records, 0 errors, 1 skipped");
}

#[test]
fn row_that_is_no_object_is_skipped() {
    let result = execute(&vec![text("not a row"), Value::Null], &example_matrix());
    assert_eq!(result.records.len(), 0);
    assert_eq!(result.skipped.len(), 2);
    assert_eq!(result.skipped[0].row, 0);
    assert_eq!(result.skipped[0].reason, "Row is not a JSON object");
    assert!(result.skipped[0].missing_fields.is_empty());
    assert_eq!(result.skipped[1].row, 1);
}

#[test]
fn row_without_any_field_is_dropped_without_a_report() {
    let mut matrix = TransformationMatrix::new();
    matrix.transforms.insert("title".to_string(), FieldTransform::from_source("Titre"));
    let result = execute(&vec![row(&[("Titre", "   ")]), row(&[("Other", "x")])], &matrix);
    assert_eq!(result.records.len(), 0);
    assert_eq!(result.skipped.len(), 0);
    assert!(result.is_ok());
}

#[test]
fn empty_matrix_gives_no_records() {
    let result = execute(&vec![row(&[("a", "b")])], &TransformationMatrix::new());
    assert_eq!(result.records.len(), 0);
    assert_eq!(result.skipped.len(), 0);
}

#[test]
fn new_result_is_empty() {
    let result = TransformResult::new();
    assert!(result.is_ok());
    assert_eq!(result.summary(), "Transformed: 0 records, 0 errors, 0 skipped");
}

#[test]
fn source_takes_precedence_over_sources_and_constant() {
    let cells = vec![
        Entry { key: "A".to_string(), value: text("from a") },
        Entry { key: "B".to_string(), value: text("from b") },
    ];
    let mut rule = FieldTransform::from_source("A");
    rule.sources = Some(vec!["B".to_string()]);
    rule.constant = Some(text("constant"));
    assert_eq!(apply_transform(&cells, &rule), Some(text("from a")));
    rule.source = None;
    assert_eq!(apply_transform(&cells, &rule), Some(text("from b")));
    rule.sources = None;
    assert_eq!(apply_transform(&cells, &rule), Some(text("constant")));
    rule.constant = None;
    assert_eq!(apply_transform(&cells, &rule), None);
    rule.default = Some(text("default"));
    assert_eq!(apply_transform(&cells, &rule), Some(text("default")));
}

#[test]
fn default_stands_in_before_and_after_the_operations() {
    let cells = vec![Entry { key: "A".to_string(), value: text("  ") }];
    let before = FieldTransform::from_source("A")
        .with_operation(Operation::EnsurePrefix { value: "T".to_string() })
        .with_default(text("9"));
    assert_eq!(apply_transform(&cells, &before), Some(text("T9")));

    let cells = vec![Entry { key: "A".to_string(), value: text("x") }];
    let after = FieldTransform::from_source("A")
        .with_operation(Operation::Lookup {
            mapping: Mapping::new(),
            case_insensitive: false,
            default_unmapped: None,
        })
        .with_default(text("fallback"));
    assert_eq!(apply_transform(&cells, &after), Some(text("fallback")));

    let none = FieldTransform::from_source("A").with_operation(Operation::ExtractYear);
    assert_eq!(apply_transform(&cells, &none), None);
}

#[test]
fn operations_run_in_order() {
    let cells = vec![Entry { key: "A".to_string(), value: text(" t-1 ") }];
    let rule = FieldTransform::from_source("A")
        .with_operation(Operation::Trim)
        .with_operation(Operation::Uppercase)
        .with_operation(Operation::EnsureSuffix { value: "!".to_string() });
    assert_eq!(apply_transform(&cells, &rule), Some(text("T-1!")));
}

#[test]
fn joined_sources_skip_other_values() {
    let cells = vec![
        Entry { key: "A".to_string(), value: Value::Number(1) },
        Entry { key: "B".to_string(), value: text(" b ") },
        Entry { key: "C".to_string(), value: text("c") },
    ];
    let rule = FieldTransform::from_sources(
        vec!["A".to_string(), "B".to_string(), "X".to_string(), "C".to_string()],
        "-",
    );
    assert_eq!(apply_transform(&cells, &rule), Some(text("b-c")));
}

#[test]
fn emptiness() {
    assert!(is_empty(&Value::Null));
    assert!(is_empty(&text("")));
    assert!(is_empty(&text(" \t\n")));
    assert!(is_empty(&Value::Array(vec![])));
    assert!(is_empty(&Value::Object(vec![])));
    assert!(!is_empty(&text("a")));
    assert!(!is_empty(&Value::Bool(false)));
    assert!(!is_empty(&Value::Number(0)));
    assert!(!is_empty(&Value::Array(vec![Value::Null])));
}

fn split_role_matrix() -> TransformationMatrix {
    let mut mapping = Mapping::new();
    mapping.insert("C".to_string(), "Composer".to_string());
    mapping.insert("A".to_string(), "Author".to_string());
    let mut matrix = TransformationMatrix::new();
    matrix.transforms.insert("title".to_string(), FieldTransform::from_source("Titre"));
    matrix.transforms.insert(
        "creatorRole".to_string(),
        FieldTransform::from_source("Role").with_operation(Operation::Lowercase),
    );
    matrix.expand = Some(ExpandConfig::SplitRole {
        source: "Role".to_string(),
        separator: "+".to_string(),
        mapping,
    });
    matrix
}

#[test]
fn split_role_gives_one_pair_per_token() {
    let matrix = split_role_matrix();
    let pairs = expand_row(&row(&[("Titre", "Song"), ("Role", "C+A")]), &matrix, 0);
    assert_eq!(pairs.len(), 2);
    assert_eq!(pairs[0].0.get("Role"), Some(&text("Composer")));
    assert_eq!(pairs[1].0.get("Role"), Some(&text("Author")));
    assert_eq!(pairs[0].0.get("Titre"), Some(&text("Song")));
    let forced = pairs[0].1.as_ref().unwrap();
    assert_eq!(forced.len(), 1);
    assert_eq!(forced.get("creatorRole"), Some(&FieldTransform::from_constant(text("Composer"))));
    let forced = pairs[1].1.as_ref().unwrap();
    assert_eq!(forced.get("creatorRole"), Some(&FieldTransform::from_constant(text("Author"))));
}

#[test]
fn split_role_forces_the_role_field() {
    let matrix = split_role_matrix();
    let result = execute(&vec![row(&[("Titre", "Song"), ("Role", "C + X")])], &matrix);
    assert_eq!(result.records.len(), 2);
    assert_eq!(result.records[0].get("creatorRole"), Some(&text("Composer")));
    assert_eq!(result.records[0].get("title"), Some(&text("Song")));
    assert_eq!(result.records[1].get("creatorRole"), Some(&text("X")));
}

#[test]
fn split_role_with_one_token_does_not_expand() {
    let matrix = split_role_matrix();
    for role in ["C", "", "C,A"] {
        let original = row(&[("Titre", "Song"), ("Role", role)]);
        let pairs = expand_row(&original, &matrix, 0);
        assert_eq!(pairs.len(), 1);
        assert_eq!(pairs[0].0, original);
        assert!(pairs[0].1.is_none());
    }
    let result = execute(&vec![row(&[("Titre", "Song"), ("Role", "C")])], &matrix);
    assert_eq!(result.records.len(), 1);
    assert_eq!(result.records[0].get("creatorRole"), Some(&text("c")));
}

#[test]
fn split_role_without_separator_or_column_does_not_expand() {
    let mut matrix = split_role_matrix();
    matrix.expand = Some(ExpandConfig::SplitRole {
        source: "Role".to_string(),
        separator: "".to_string(),
        mapping: Mapping::new(),
    });
    assert_eq!(expand_row(&row(&[("Role", "C+A")]), &matrix, 0).len(), 1);
    let matrix = split_role_matrix();
    assert_eq!(expand_row(&row(&[("Other", "C+A")]), &matrix, 0).len(), 1);
    assert_eq!(expand_row(&text("C+A"), &matrix, 0).len(), 1);
}

fn variants_matrix() -> TransformationMatrix {
    let mut composer = TransformMap::new();
    composer.insert("creatorIpi".to_string(), FieldTransform::from_source("Composer_IPI"));
    composer.insert("creatorRole".to_string(), FieldTransform::from_constant(text("Composer")));
    let mut author = TransformMap::new();
    author.insert("creatorIpi".to_string(), FieldTransform::from_source("Author_IPI"));
    author.insert("creatorRole".to_string(), FieldTransform::from_constant(text("Author")));
    let mut matrix = TransformationMatrix::new();
    matrix.transforms.insert("title".to_string(), FieldTransform::from_source("Titre"));
    matrix.transforms.insert("creatorIpi".to_string(), FieldTransform::from_source("IPI"));
    matrix.transforms.insert("creatorRole".to_string(), FieldTransform::from_source("Role"));
    matrix.expand = Some(ExpandConfig::MultipleColumns {
        variants: vec![
            ColumnVariant { condition_column: Some("Composer_IPI".to_string()), overrides: composer },
            ColumnVariant { condition_column: Some("Author_IPI".to_string()), overrides: author },
        ],
    });
    matrix
}

#[test]
fn multiple_columns_give_one_pair_per_filled_group() {
    let matrix = variants_matrix();
    let both = row(&[("Titre", "Song"), ("Composer_IPI", "11"), ("Author_IPI", "22")]);
    let result = execute(&vec![both.clone()], &matrix);
    assert_eq!(result.records.len(), 2);
    assert_eq!(result.records[0].get("creatorRole"), Some(&text("Composer")));
    assert_eq!(result.records[0].get("creatorIpi"), Some(&text("11")));
    assert_eq!(result.records[1].get("creatorRole"), Some(&text("Author")));
    assert_eq!(result.records[1].get("creatorIpi"), Some(&text("22")));
    let pairs = expand_row(&both, &matrix, 0);
    assert_eq!(pairs[0].0, both);
    assert_eq!(pairs[1].0, both);

    let one = row(&[("Titre", "Song"), ("Composer_IPI", "  "), ("Author_IPI", "22")]);
    let result = execute(&vec![one], &matrix);
    assert_eq!(result.records.len(), 1);
    assert_eq!(result.records[0].get("creatorRole"), Some(&text("Author")));
}

#[test]
fn multiple_columns_never_lose_a_row() {
    let matrix = variants_matrix();
    let none = row(&[("Titre", "Song"), ("IPI", "33"), ("Role", "Arranger")]);
    let pairs = expand_row(&none, &matrix, 0);
    assert_eq!(pairs.len(), 1);
    assert!(pairs[0].1.is_none());
    let result = execute(&vec![none], &matrix);
    assert_eq!(result.records.len(), 1);
    assert_eq!(result.records[0].get("creatorIpi"), Some(&text("33")));
    assert_eq!(result.records[0].get("creatorRole"), Some(&text("Arranger")));
}

#[test]
fn variant_without_condition_always_gives_a_pair() {
    let mut matrix = TransformationMatrix::new();
    matrix.transforms.insert("title".to_string(), FieldTransform::from_source("Titre"));
    matrix.expand = Some(ExpandConfig::MultipleColumns {
        variants: vec![
            ColumnVariant { condition_column: None, overrides: TransformMap::new() },
            ColumnVariant { condition_column: None, overrides: TransformMap::new() },
        ],
    });
    let result = execute(&vec![row(&[("Titre", "Song")])], &matrix);
    assert_eq!(result.records.len(), 2);
}

#[test]
fn overrides_replace_a_rule_for_one_pair_only() {
    let matrix = example_matrix();
    let mut overrides = TransformMap::new();
    overrides.insert("title".to_string(), FieldTransform::from_constant(text("Forced")));
    let data = row(&[("Code ISWC", "T1"), ("Titre", "Own"), ("IPI", "5")]);
    let forced = transform_row_with_overrides(&data, &matrix, 3, Some(&overrides));
    assert_eq!(forced.unwrap().unwrap().get("title"), Some(&text("Forced")));
    let own = transform_row_with_overrides(&data, &matrix, 3, None);
    assert_eq!(own.unwrap().unwrap().get("title"), Some(&text("Own")));
    let skipped = transform_row_with_overrides(&row(&[("Titre", "x")]), &matrix, 3, None);
    assert_eq!(skipped.unwrap_err().row, 3);
}

#[test]
fn rows_of_cells_are_rows_of_text() {
    let rows = vec![vec![
        ("Code ISWC".to_string(), "T-1".to_string()),
        ("Titre".to_string(), "first".to_string()),
        ("IPI".to_string(), "12".to_string()),
        ("Titre".to_string(), "second".to_string()),
    ]];
    let result = execute_hashmap(&rows, &example_matrix());
    assert_eq!(result.records.len(), 1);
    assert_eq!(result.records[0].get("title"), Some(&text("second")));
    assert_eq!(result.records[0].get("iswc"), Some(&text("T1")));
}
