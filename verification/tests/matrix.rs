use massload::transform::dsl::matrix::{
    default_concat_separator, default_header_rows, default_role_separator, default_version,
    sorted_unique,
};
use massload::transform::dsl::operations::{
    default_pad_char, default_split_separator, default_true_values,
};
use massload::{
    example_matrix, ColumnVariant, ExpandConfig, FieldTransform, Mapping, Operation, TransformMap,
    TransformationMatrix, Value,
};

fn columns(names: &[&str]) -> Vec<String> {
    names.iter().map(|n| n.to_string()).collect()
}

#[test]
fn test_validate_headers() {
    let matrix = example_matrix();
    let headers = columns(&["Code ISWC", "Titre", "Role", "IPI", "Instrumental"]);
    assert!(matrix.validate_headers(&headers).is_ok());

    let missing_headers = vec!["Code ISWC".to_string()];
    let result = matrix.validate_headers(&missing_headers);
    assert!(result.is_err());
}

#[test]
fn validate_headers_lists_what_is_missing() {
    let matrix = example_matrix();
    let result = matrix.validate_headers(&columns(&["Titre", "Code ISWC", "extra"]));
    assert_eq!(result, Err(columns(&["IPI", "Instrumental", "Role"])));
    assert_eq!(TransformationMatrix::new().validate_headers(&vec![]), Ok(()));
    assert!(matrix.validate_headers(&columns(&["code iswc"])).is_err());
}

#[test]
fn source_columns_are_sorted_and_unique() {
    let matrix = example_matrix();
    assert_eq!(
        matrix.source_columns(),
        columns(&["Code ISWC", "IPI", "Instrumental", "Role", "Titre"])
    );
    assert_eq!(
        matrix.target_fields(),
        columns(&["iswc", "title", "creatorRole", "creatorIpi", "instrumental"])
    );
    assert!(TransformationMatrix::new().source_columns().is_empty());
}

#[test]
fn source_columns_include_the_expansion() {
    let mut matrix = TransformationMatrix::new();
    matrix.transforms.insert("a".to_string(), FieldTransform::from_source("Zed"));
    matrix.transforms.insert(
        "b".to_string(),
        FieldTransform::from_sources(columns(&["Beta", "Zed", "alpha"]), " "),
    );
    matrix.transforms.insert("c".to_string(), FieldTransform::from_constant(Value::Null));
    matrix.expand = Some(ExpandConfig::SplitRole {
        source: "Role".to_string(),
        separator: "+".to_string(),
        mapping: Mapping::new(),
    });
    assert_eq!(matrix.source_columns(), columns(&["Beta", "Role", "Zed", "alpha"]));
    assert_eq!(matrix.all_named_columns(), columns(&["Zed", "Beta", "Zed", "alpha", "Role"]));

    let mut overrides = TransformMap::new();
    overrides.insert("x".to_string(), FieldTransform::from_source("Over"));
    matrix.expand = Some(ExpandConfig::MultipleColumns {
        variants: vec![
            ColumnVariant { condition_column: Some("Cond".to_string()), overrides },
            ColumnVariant { condition_column: None, overrides: TransformMap::new() },
        ],
    });
    assert_eq!(matrix.source_columns(), columns(&["Beta", "Cond", "Over", "Zed", "alpha"]));
}

#[test]
fn sorting_goes_by_code_points() {
    let sorted = sorted_unique(&columns(&["b", "a", "B", "é", "ab", "a", "", "z"]));
    assert_eq!(sorted, columns(&["", "B", "a", "ab", "b", "z", "é"]));
}

#[test]
fn builders() {
    let rule = FieldTransform::from_source("A");
    assert_eq!(rule.source, Some("A".to_string()));
    assert_eq!(rule.sources, None);
    assert_eq!(rule.concat_separator, " ");
    assert_eq!(rule.constant, None);
    assert!(rule.operations.is_empty());
    assert_eq!(rule.default, None);
    assert!(!rule.required);
    assert_eq!(rule.get_sources(), columns(&["A"]));

    let rule = FieldTransform::from_sources(columns(&["A", "B"]), "-")
        .with_operation(Operation::Trim)
        .with_operation(Operation::ToNumber)
        .with_default(Value::Number(0))
        .required();
    assert_eq!(rule.source, None);
    assert_eq!(rule.sources, Some(columns(&["A", "B"])));
    assert_eq!(rule.concat_separator, "-");
    assert_eq!(rule.operations, vec![Operation::Trim, Operation::ToNumber]);
    assert_eq!(rule.default, Some(Value::Number(0)));
    assert!(rule.required);
    assert_eq!(rule.get_sources(), columns(&["A", "B"]));
    assert_eq!(rule.clone(), rule);

    let rule = FieldTransform::from_constant(Value::Bool(true));
    assert_eq!(rule.constant, Some(Value::Bool(true)));
    assert!(rule.get_sources().is_empty());
}

#[test]
fn defaults() {
    assert_eq!(default_version(), "1.0");
    assert_eq!(default_header_rows(), 1);
    assert_eq!(default_concat_separator(), " ");
    assert_eq!(default_role_separator(), "+");
    assert_eq!(default_pad_char(), "0");
    assert_eq!(default_split_separator(), ",");
    assert_eq!(default_true_values(), columns(&["true", "1", "yes", "oui", "o", "y"]));
    let matrix = TransformationMatrix::new();
    assert_eq!(matrix.version, "1.0");
    assert_eq!(matrix.description, "");
    assert!(matrix.source_format.is_none());
    assert!(matrix.transforms.is_empty());
    assert!(matrix.expand.is_none());
}

#[test]
fn rules_by_field() {
    let mut rules = TransformMap::new();
    assert_eq!(rules.insert("a".to_string(), FieldTransform::from_source("1")), None);
    assert_eq!(rules.insert("b".to_string(), FieldTransform::from_source("2")), None);
    assert_eq!(
        rules.insert("a".to_string(), FieldTransform::from_source("3")),
        Some(FieldTransform::from_source("1"))
    );
    assert_eq!(rules.len(), 2);
    assert_eq!(rules.keys(), columns(&["a", "b"]));
    assert_eq!(rules.get("a"), Some(&FieldTransform::from_source("3")));
    assert_eq!(rules.get("c"), None);
    assert_eq!(rules.key_at(1), "b");
    assert_eq!(rules.value_at(1), &FieldTransform::from_source("2"));
    assert_eq!(rules.clone(), rules);
}

#[test]
fn lookup_table() {
    let mut table = Mapping::new();
    assert!(table.is_empty());
    assert_eq!(table.insert("K".to_string(), "1".to_string()), None);
    assert_eq!(table.insert("k".to_string(), "2".to_string()), None);
    assert_eq!(table.insert("K".to_string(), "3".to_string()), Some("1".to_string()));
    assert_eq!(table.len(), 2);
    assert_eq!(table.get("K"), Some(&"3".to_string()));
    assert_eq!(table.get("x"), None);
    assert_eq!(table.get_folded("k"), Some(&"3".to_string()));
    assert_eq!(table.get_folded("K"), None);
    assert_eq!(table.key_at(1), "k");
    assert_eq!(table.value_at(1), "2");
    assert_eq!(table.position("k"), 1);
}
