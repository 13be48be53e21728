use massload::transform::pipeline::{
    complete, csv_info_of, format_delimiter, get_matrix_with_fallback_at, tally_verdicts,
    transform_parsed, try_matrix, validate_records, with_explicit_matrix, with_generated_matrix_at,
    Plan,
};
use massload::{
    example_matrix, transform_with_matrix, Entry, FieldTransform, MatrixRegistry, ParseResult,
    PipelineError, StoredMatrix, TransformOptions, TransformationMatrix, Value,
};

fn text(s: &str) -> Value {
    Value::String(s.to_string())
}

fn row(cells: &[(&str, &str)]) -> Value {
    Value::Object(
        cells.iter().map(|(k, v)| Entry { key: k.to_string(), value: text(v) }).collect(),
    )
}

fn accept_all(_record: &Value) -> Vec<String> {
    Vec::new()
}

fn needs_title(record: &Value) -> Vec<String> {
    match record.get("title") {
        Some(_) => Vec::new(),
        None => vec!["title is required".to_string()],
    }
}

fn parsed(records: Vec<Value>, headers: &[&str]) -> ParseResult {
    ParseResult {
        records,
        encoding: "utf-8".to_string(),
        delimiter: ';',
        headers: headers.iter().map(|h| h.to_string()).collect(),
    }
}

fn matrix_with(target: &str, source: &str) -> TransformationMatrix {
    let mut matrix = TransformationMatrix::new();
    matrix.transforms.insert(target.to_string(), FieldTransform::from_source(source));
    matrix
}

fn template(id: &str, matrix: TransformationMatrix, cols: &[&str], rate: u32) -> StoredMatrix {
    StoredMatrix {
        id: id.to_string(),
        name: id.to_string(),
        matrix,
        csv_columns: cols.iter().map(|c| c.to_string()).collect(),
        created_at: "then".to_string(),
        last_used: None,
        success_rate: rate,
        use_count: 0,
    }
}

#[test]
fn test_default_options() {
    let opts = TransformOptions::default();
    assert_eq!(opts.preview_rows, 10);
    assert!(!opts.skip_validation);
    assert!(!opts.no_cache);
}

#[test]
fn test_transform_with_matrix() {
    let records = vec![row(&[
        ("Code ISWC", "T-123.456.789-0"),
        ("Titre", "Test Song"),
        ("IPI", "123456789"),
        ("Role", "CA"),
        ("Instrumental", "non"),
    ])];

    let matrix = example_matrix();
    let result = transform_with_matrix(&records, &matrix, false, &accept_all);

    assert_eq!(result.flat.len(), 1);
    assert_eq!(result.grouped.len(), 1);
    assert_eq!(result.flat[0].get("iswc"), Some(&text("T1234567890")));
    assert_eq!(result.flat[0].get("title"), Some(&text("Test Song")));
}

#[test]
fn default_options_in_full() {
    let opts = TransformOptions::default();
    assert_eq!(opts.matrix_path, None);
    assert!(!opts.no_save);
    assert_eq!(opts.clone(), opts);
}

#[test]
fn transform_with_matrix_counts() {
    let records = vec![
        row(&[("Titre", "a"), ("Note", "x")]),
        row(&[("Note", "only")]),
        text("no row"),
    ];
    let mut matrix = matrix_with("title", "Titre");
    matrix.transforms.insert("note".to_string(), FieldTransform::from_source("Note"));
    let result = transform_with_matrix(&records, &matrix, true, &needs_title);
    assert_eq!(result.flat.len(), 2);
    assert_eq!(result.valid_count, 1);
    assert_eq!(result.invalid_count, 1);
    assert_eq!(result.validation_errors, vec![(1, vec!["title is required".to_string()])]);
    assert_eq!(result.skipped, 1);
    assert_eq!(result.errors, 0);
    assert_eq!(result.grouped.len(), 0);
    let unchecked = transform_with_matrix(&records, &matrix, false, &needs_title);
    assert_eq!(unchecked.valid_count, 2);
    assert_eq!(unchecked.invalid_count, 0);
    assert!(unchecked.validation_errors.is_empty());
}

#[test]
fn tally_keeps_the_first_ten_errors() {
    let mut verdicts: Vec<Vec<String>> = Vec::new();
    for i in 0..15 {
        verdicts.push(vec![format!("bad {}", i)]);
        verdicts.push(vec![]);
    }
    let summary = tally_verdicts(&verdicts);
    assert_eq!(summary.valid_count, 15);
    assert_eq!(summary.invalid_count, 15);
    assert_eq!(summary.validation_errors.len(), 10);
    assert_eq!(summary.validation_errors[0], (0, vec!["bad 0".to_string()]));
    assert_eq!(summary.validation_errors[9], (18, vec!["bad 9".to_string()]));
    let none = tally_verdicts(&vec![]);
    assert_eq!((none.valid_count, none.invalid_count), (0, 0));
}

#[test]
fn validate_records_asks_the_validator() {
    let records = vec![row(&[("title", "a")]), row(&[("other", "b")])];
    let summary = validate_records(&records, &needs_title);
    assert_eq!(summary.valid_count, 1);
    assert_eq!(summary.invalid_count, 1);
    assert_eq!(summary.validation_errors, vec![(1, vec!["title is required".to_string()])]);
}

#[test]
fn trial_of_a_matrix() {
    let data = parsed(vec![row(&[("Titre", "a")]), row(&[("x", "y")])], &["Titre"]);
    let mut options = TransformOptions::default();
    let trial = try_matrix(
        &data,
        matrix_with("title", "Titre"),
        Some("id".to_string()),
        &options,
        &needs_title,
    );
    assert_eq!(trial.matrix, matrix_with("title", "Titre"));
    assert_eq!(trial.template_id, Some("id".to_string()));
    assert_eq!(trial.transform_result.records.len(), 1);
    assert_eq!((trial.valid_count, trial.invalid_count), (1, 0));
    options.skip_validation = true;
    let trial = try_matrix(&data, matrix_with("any", "Titre"), None, &options, &needs_title);
    assert_eq!((trial.valid_count, trial.invalid_count), (1, 0));
    assert!(trial.validation_errors.is_empty());
}

#[test]
fn explicit_matrix_is_used_and_nothing_else() {
    let data = parsed(vec![row(&[("Titre", "a")])], &["Titre"]);
    let mut registry = MatrixRegistry::new();
    registry.add(template("cached", matrix_with("title", "Titre"), &["Titre"], 1_000_000_000));
    let mut options = TransformOptions::default();
    options.matrix_path = Some("rules.json".to_string());
    let plan = get_matrix_with_fallback_at(&data, &options, &mut registry, &needs_title, "now");
    match plan {
        Plan::NeedMatrixFile(path) => assert_eq!(path, "rules.json"),
        _ => panic!("the matrix file was to be asked for"),
    }
    assert_eq!(registry.get("cached").unwrap().use_count, 0);
    let trial = with_explicit_matrix(&data, matrix_with("nothing", "x"), &options, &needs_title);
    assert_eq!(trial.template_id, None);
    assert_eq!(trial.valid_count, 0);
    assert_eq!(trial.transform_result.records.len(), 0);
}

#[test]
fn cached_templates_are_tried_best_first_until_one_serves() {
    let data = parsed(vec![row(&[("Titre", "a"), ("Code", "T1")])], &["Titre", "Code"]);
    let mut registry = MatrixRegistry::new();
    registry.add(template("low", matrix_with("title", "Titre"), &["Titre", "Code"], 100_000_000));
    registry.add(template("wrong", matrix_with("iswc", "Code"), &["Titre", "Code"], 900_000_000));
    registry.add(template("good", matrix_with("title", "Titre"), &["Titre", "Code"], 500_000_000));
    registry.add(template("unfit", matrix_with("title", "Titre"), &["A", "B"], 1_000_000_000));
    let options = TransformOptions::default();
    let plan = get_matrix_with_fallback_at(&data, &options, &mut registry, &needs_title, "now");
    let trial = match plan {
        Plan::Finished(trial) => trial,
        _ => panic!("a cached template was to serve"),
    };
    assert_eq!(trial.template_id, Some("good".to_string()));
    assert_eq!(trial.valid_count, 1);
    assert_eq!(trial.matrix, matrix_with("title", "Titre"));
    let wrong = registry.get("wrong").unwrap();
    assert_eq!((wrong.use_count, wrong.success_rate), (1, 810_000_000));
    assert_eq!(wrong.last_used, Some("now".to_string()));
    let good = registry.get("good").unwrap();
    assert_eq!((good.use_count, good.success_rate), (1, 550_000_000));
    let low = registry.get("low").unwrap();
    assert_eq!((low.use_count, low.success_rate), (0, 100_000_000));
    assert_eq!(registry.get("unfit").unwrap().use_count, 0);
}

#[test]
fn generation_is_asked_for_when_no_template_serves() {
    let data = parsed(
        vec![row(&[("Titre", "a")]), row(&[("Titre", "b")]), row(&[("Titre", "c")])],
        &["Titre"],
    );
    let mut registry = MatrixRegistry::new();
    registry.add(template("wrong", matrix_with("iswc", "Code"), &["Titre"], 1_000_000_000));
    let mut options = TransformOptions::default();
    options.preview_rows = 2;
    match get_matrix_with_fallback_at(&data, &options, &mut registry, &needs_title, "now") {
        Plan::NeedGeneration { preview_rows } => assert_eq!(preview_rows, 2),
        _ => panic!("a matrix was to be generated"),
    }
    assert_eq!(registry.get("wrong").unwrap().use_count, 1);
    assert_eq!(registry.get("wrong").unwrap().success_rate, 900_000_000);

    options.preview_rows = 10;
    options.no_cache = true;
    match get_matrix_with_fallback_at(&data, &options, &mut registry, &needs_title, "now") {
        Plan::NeedGeneration { preview_rows } => assert_eq!(preview_rows, 3),
        _ => panic!("a matrix was to be generated"),
    }
    assert_eq!(registry.get("wrong").unwrap().use_count, 1);
}

#[test]
fn generated_matrix_is_stored_tried_and_terminal() {
    let data = parsed(vec![row(&[("Titre", "a")])], &["Titre", "Code"]);
    let mut registry = MatrixRegistry::new();
    let options = TransformOptions::default();
    let trial = with_generated_matrix_at(
        &data,
        matrix_with("iswc", "Code"),
        &options,
        &mut registry,
        "catalog",
        &needs_title,
        42,
        "now",
    );
    assert_eq!(trial.template_id, Some("catalog-42".to_string()));
    assert_eq!(trial.valid_count, 0);
    let stored = registry.get("catalog-42").unwrap();
    assert_eq!(stored.csv_columns, vec!["Titre".to_string(), "Code".to_string()]);
    assert_eq!(stored.created_at, "now");
    assert_eq!((stored.use_count, stored.success_rate), (1, 900_000_000));

    let mut options = TransformOptions::default();
    options.no_save = true;
    let trial = with_generated_matrix_at(
        &data,
        matrix_with("title", "Titre"),
        &options,
        &mut registry,
        "other",
        &needs_title,
        43,
        "now",
    );
    assert_eq!(trial.template_id, None);
    assert_eq!(trial.valid_count, 1);
    assert_eq!(registry.len(), 1);
}

#[test]
fn a_file_without_rows_is_refused() {
    let data = parsed(vec![], &["Titre"]);
    let mut registry = MatrixRegistry::new();
    let options = TransformOptions::default();
    match transform_parsed(&data, &options, &mut registry, &accept_all) {
        Err(PipelineError::MatrixError(message)) => assert_eq!(message, "CSV file is empty"),
        _ => panic!("the empty file was to be refused"),
    }
    let data = parsed(vec![row(&[("Titre", "a")])], &["Titre"]);
    assert!(matches!(
        transform_parsed(&data, &options, &mut registry, &accept_all),
        Ok(Plan::NeedGeneration { preview_rows: 1 })
    ));
}

#[test]
fn completion_groups_the_records() {
    let data = parsed(
        vec![
            row(&[("Code", "T1"), ("Titre", "a")]),
            row(&[("Code", "T1"), ("Titre", "b")]),
            row(&[("Code", "T2"), ("Titre", "c")]),
        ],
        &["Code", "Titre"],
    );
    let mut matrix = matrix_with("iswc", "Code");
    matrix.transforms.insert("title".to_string(), FieldTransform::from_source("Titre"));
    let options = TransformOptions::default();
    let trial = with_explicit_matrix(&data, matrix.clone(), &options, &accept_all);
    let result = complete(trial, csv_info_of(&data));
    assert_eq!(result.flat.len(), 3);
    assert_eq!(result.grouped.len(), 2);
    assert_eq!(result.grouped[0].get("title"), Some(&text("a")));
    assert_eq!(result.valid_count, 3);
    assert_eq!(result.invalid_count, 0);
    assert_eq!(result.matrix, matrix);
    assert_eq!(result.template_id, None);
    assert_eq!(result.csv_info.row_count, 3);
    assert_eq!(result.csv_info.delimiter, ';');
    assert_eq!(result.csv_info.encoding, "utf-8");
    assert_eq!(result.csv_info.headers, vec!["Code".to_string(), "Titre".to_string()]);
}

#[test]
fn delimiters_as_shown() {
    assert_eq!(format_delimiter(';'), ";");
    assert_eq!(format_delimiter(','), ",");
    assert_eq!(format_delimiter('\t'), "TAB");
    assert_eq!(format_delimiter('|'), "|");
    assert_eq!(format_delimiter(':'), "?");
}

#[test]
fn pipeline_error_texts() {
    assert_eq!(PipelineError::CsvError("c".into()).to_string(), "CSV parsing error: c");
    assert_eq!(PipelineError::AiError("a".into()).to_string(), "AI error: a");
    assert_eq!(PipelineError::MatrixError("m".into()).to_string(), "Matrix error: m");
    assert_eq!(PipelineError::ValidationError("v".into()).to_string(), "Validation error: v");
    assert_eq!(PipelineError::IoError("i".into()).to_string(), "IO error: i");
}

#[test]
fn no_template_is_tried_twice_in_a_batch() {
    let data = parsed(vec![row(&[("Titre", "a")])], &["Titre"]);
    let mut registry = MatrixRegistry::new();
    for id in ["one", "two", "three"] {
        registry.add(template(id, matrix_with("iswc", "Code"), &["Titre"], 1_000_000_000));
    }
    let options = TransformOptions::default();
    let plan = get_matrix_with_fallback_at(&data, &options, &mut registry, &needs_title, "now");
    assert!(matches!(plan, Plan::NeedGeneration { preview_rows: 1 }));
    for id in ["one", "two", "three"] {
        let stored = registry.get(id).unwrap();
        assert_eq!((stored.use_count, stored.success_rate), (1, 900_000_000));
    }
}
