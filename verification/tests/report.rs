use massload::api::logs::{LogEntry, LogLevel};
use massload::parser::show_delimiter;
use massload::transform::pipeline::{
    group_skips, print_matrix_mapping, print_transform_result, print_validation_result,
};
use massload::{
    example_matrix, FieldTransform, MatrixRegistry, SkippedRow, TransformError, TransformResult,
    TransformationMatrix, Value,
};

fn lines(entries: &[LogEntry]) -> Vec<(LogLevel, &str)> {
    entries.iter().map(|e| (e.level, e.message.as_str())).collect()
}

fn skip(row: usize, missing: &[&str]) -> SkippedRow {
    SkippedRow {
        row,
        reason: "Missing required fields".to_string(),
        missing_fields: missing.iter().map(|m| m.to_string()).collect(),
    }
}

#[test]
fn mapping_of_a_matrix() {
    let mut matrix = TransformationMatrix::new();
    matrix.transforms.insert("iswc".to_string(), FieldTransform::from_source("Code"));
    matrix.transforms.insert(
        "title".to_string(),
        FieldTransform::from_sources(vec!["A".to_string(), "B".to_string()], " "),
    );
    matrix.transforms.insert("lang".to_string(), FieldTransform::from_constant(Value::Null));
    let mut bare = FieldTransform::from_source("x");
    bare.source = None;
    matrix.transforms.insert("bare".to_string(), bare);
    assert_eq!(
        lines(&print_matrix_mapping(&matrix)),
        vec![
            (LogLevel::Info, "Matrix mapping:"),
            (LogLevel::Info, "Code \u{2192} iswc"),
            (LogLevel::Info, "[A + B] \u{2192} title"),
            (LogLevel::Info, "(constant) \u{2192} lang"),
        ]
    );
    assert_eq!(print_matrix_mapping(&example_matrix()).len(), 6);
}

#[test]
fn outcome_of_a_validation() {
    assert_eq!(
        lines(&print_validation_result(12, 0)),
        vec![(LogLevel::Success, "All 12 records valid!")]
    );
    assert_eq!(
        lines(&print_validation_result(3, 2)),
        vec![(LogLevel::Success, "Valid: 3"), (LogLevel::Error, "Invalid: 2")]
    );
}

#[test]
fn outcome_of_an_execution() {
    let mut result = TransformResult::default();
    assert_eq!(
        lines(&print_transform_result(&result)),
        vec![(LogLevel::Success, "Generated 0 flat records")]
    );
    result.records.push(Value::Null);
    for row in 0..7 {
        result.skipped.push(skip(row, &["iswc", "title"]));
    }
    result.skipped.push(SkippedRow {
        row: 9,
        reason: "Row is not a JSON object".to_string(),
        missing_fields: vec![],
    });
    result.skipped.push(skip(11, &["iswc"]));
    for row in 0..4 {
        result.errors.push(TransformError {
            row,
            field: "f\"".to_string(),
            message: "m".to_string(),
        });
    }
    assert_eq!(
        lines(&print_transform_result(&result)),
        vec![
            (LogLevel::Success, "Generated 1 flat records"),
            (LogLevel::Warning, "4 errors during transformation"),
            (LogLevel::Error, "TransformError { row: 0, field: \"f\\\"\", message: \"m\" }"),
            (LogLevel::Error, "TransformError { row: 1, field: \"f\\\"\", message: \"m\" }"),
            (LogLevel::Error, "TransformError { row: 2, field: \"f\\\"\", message: \"m\" }"),
            (LogLevel::Warning, "9 rows skipped (missing required fields)"),
            (LogLevel::Warning, "\u{2022} Missing: iswc, title (rows: 0, 1, 2, 3, 4... +2)"),
            (LogLevel::Warning, "\u{2022} Row is not a JSON object (rows: 9)"),
            (LogLevel::Warning, "\u{2022} Missing: iswc (rows: 11)"),
        ]
    );
}

#[test]
fn shown_errors_follow_the_debug_form() {
    let error = TransformError { row: 3, field: "a\nb".to_string(), message: "é".to_string() };
    let mut result = TransformResult::new();
    result.errors.push(error.clone());
    let shown = print_transform_result(&result);
    assert_eq!(shown[2].message, format!("{:?}", error));
}

#[test]
fn at_most_five_reasons_are_shown() {
    let mut result = TransformResult::new();
    for (row, field) in ["a", "b", "c", "d", "e", "f", "a"].iter().enumerate() {
        result.skipped.push(skip(row, &[field]));
    }
    let groups = group_skips(&result.skipped);
    assert_eq!(groups.len(), 6);
    assert_eq!(groups[0], ("Missing: a".to_string(), vec![0, 6]));
    assert_eq!(groups[5], ("Missing: f".to_string(), vec![5]));
    let shown = print_transform_result(&result);
    assert_eq!(shown.len(), 7);
    assert_eq!(shown[6].message, "\u{2022} Missing: e (rows: 4)");
}

#[test]
fn delimiters_on_the_command_line() {
    assert_eq!(show_delimiter('\t'), "\\t");
    assert_eq!(show_delimiter(';'), ";");
    assert_eq!(show_delimiter('é'), "é");
}

#[test]
fn defaults_and_identifiers() {
    assert_eq!(TransformationMatrix::default(), TransformationMatrix::new());
    assert_eq!(MatrixRegistry::default().len(), 0);
    let id = MatrixRegistry::new().generate_id("My File.csv");
    assert!(id.starts_with("my-file-csv-"));
    assert!(id["my-file-csv-".len()..].parse::<i64>().unwrap() > 1_600_000_000_000);
}
