use massload::api::logs::{LogEntry, LogLevel};
use massload::api::types::{error_response, error_response_for, estimated_cost, UploadResponse};
use massload::ai::prompt::system_prompt;
use massload::error::{
    AiError, CsvError, PipelineError, RegistryError, ServerError, TransformError, ValidationError,
};
use massload::transform::pipeline::{complete, csv_info_of, with_explicit_matrix};
use massload::{Entry, FieldTransform, ParseResult, TransformOptions, TransformationMatrix, Value};

#[test]
fn test_validation_error_format() {
    let err = ValidationError::InvalidValue {
        field: "iswc".into(),
        message: "must start with T".into(),
    };
    let msg = err.to_string();
    assert!(msg.contains("iswc"));
    assert!(msg.contains("must start with T"));
}

#[test]
fn test_error_conversion_chain() {
    let csv_err = CsvError::EmptyFile;
    let pipeline_err: PipelineError = csv_err.into();
    assert!(pipeline_err.to_string().contains("empty"));

    let transform_err = TransformError::MissingColumn("title".into());
    let pipeline_err: PipelineError = transform_err.into();
    assert!(pipeline_err.to_string().contains("title"));
}

#[test]
fn error_texts() {
    assert_eq!(CsvError::IoError("x".into()).to_string(), "Failed to read file: x");
    assert_eq!(CsvError::EncodingError("x".into()).to_string(), "Failed to detect encoding: x");
    assert_eq!(CsvError::ParseError("x".into()).to_string(), "Invalid CSV format: x");
    assert_eq!(CsvError::EmptyFile.to_string(), "CSV file is empty");
    assert_eq!(CsvError::NoHeaders.to_string(), "No headers found in CSV");
    assert_eq!(
        TransformError::InvalidMatrix("x".into()).to_string(),
        "Invalid transformation matrix: x"
    );
    assert_eq!(
        TransformError::OperationFailed { field: "f".into(), message: "m".into() }.to_string(),
        "Operation failed on field 'f': m"
    );
    assert_eq!(TransformError::JsonError("x".into()).to_string(), "JSON error: x");
    assert_eq!(AiError::HttpError("x".into()).to_string(), "HTTP request failed: x");
    assert_eq!(AiError::InvalidResponse("x".into()).to_string(), "Invalid AI response: x");
    assert_eq!(AiError::RateLimited(30).to_string(), "Rate limited, retry after 30 seconds");
    assert_eq!(AiError::Timeout.to_string(), "Request timed out");
    assert_eq!(RegistryError::NotFound("t".into()).to_string(), "Template not found: t");
    assert_eq!(RegistryError::SaveError("t".into()).to_string(), "Failed to save template: t");
    assert_eq!(RegistryError::InvalidTemplate("t".into()).to_string(), "Invalid template: t");
    assert_eq!(RegistryError::IoError("t".into()).to_string(), "Registry IO error: t");
    assert_eq!(RegistryError::JsonError("t".into()).to_string(), "Registry JSON error: t");
    assert_eq!(
        ValidationError::MissingField("iswc".into()).to_string(),
        "Missing required field: iswc"
    );
    assert_eq!(
        ValidationError::InvalidValue { field: "iswc".into(), message: "bad".into() }.to_string(),
        "Invalid value for field 'iswc': bad"
    );
    assert_eq!(
        ValidationError::SchemaError { errors: vec!["a \"b\"".into(), "c".into()] }.to_string(),
        "Validation failed: [\"a \\\"b\\\"\", \"c\"]"
    );
    assert_eq!(PipelineError::EmptyInput.to_string(), "No records to transform");
    assert_eq!(PipelineError::AllInvalid(12).to_string(), "All 12 records failed validation");
    assert_eq!(
        PipelineError::from(RegistryError::NotFound("t".into())).to_string(),
        "Registry error: Template not found: t"
    );
    assert_eq!(PipelineError::from(AiError::Timeout).to_string(), "AI error: Request timed out");
    assert_eq!(
        PipelineError::from(ValidationError::MissingField("f".into())).to_string(),
        "Validation error: Missing required field: f"
    );
    assert_eq!(
        ServerError::from(PipelineError::EmptyInput).to_string(),
        "Pipeline error: No records to transform"
    );
    assert_eq!(ServerError::BadRequest("b".into()).to_string(), "Invalid request: b");
    assert_eq!(ServerError::Internal("i".into()).to_string(), "Internal server error: i");
}

#[test]
fn test_system_prompt_contains_schema() {
    let schema = r#"{
  "definitions": {
    "FieldTransform": { "type": "object" },
    "Operation": { "oneOf": [ {"type": "trim"}, {"type": "map"}, {"type": "to_number"} ] }
  }
}"#;
    let prompt = system_prompt(schema);
    assert!(prompt.contains("\"type\": \"trim\""));
    assert!(prompt.contains("\"type\": \"map\""));
    assert!(prompt.contains("\"type\": \"to_number\""));
    assert!(prompt.contains("FieldTransform"));
}

#[test]
fn system_prompt_wraps_the_schema() {
    let prompt = system_prompt("SCHEMA");
    assert!(prompt.starts_with("You are a data transformation expert."));
    assert!(prompt.contains("```json\nSCHEMA\n```"));
    assert!(prompt.ends_with("10. Return ONLY the JSON object, no explanations or markdown"));
}

#[test]
fn log_entries() {
    let entry = LogEntry::info("reading");
    assert_eq!((entry.level, entry.message.as_str(), entry.indent), (LogLevel::Info, "reading", 0));
    assert_eq!(entry.line(), "    reading");
    assert_eq!(LogEntry::success("done").line(), "   \u{2713} done");
    assert_eq!(LogEntry::warning("careful").line(), "   \u{26a0}\u{fe0f} careful");
    assert_eq!(LogEntry::error("failed").line(), "   \u{274c} failed");
    let nested = LogEntry::success("deep").with_indent(2);
    assert_eq!(nested.indent, 2);
    assert_eq!(nested.line(), "         \u{2713} deep");
    assert_eq!(nested.clone(), nested);
}

#[test]
fn estimated_costs() {
    assert_eq!(estimated_cost(0), "0.00 AFT");
    assert_eq!(estimated_cost(1), "0.05 AFT");
    assert_eq!(estimated_cost(3), "0.15 AFT");
    assert_eq!(estimated_cost(20), "1.00 AFT");
    assert_eq!(estimated_cost(2021), "101.05 AFT");
}

fn row(cells: &[(&str, &str)]) -> Value {
    Value::Object(
        cells
            .iter()
            .map(|(k, v)| Entry { key: k.to_string(), value: Value::String(v.to_string()) })
            .collect(),
    )
}

#[test]
fn answer_to_an_upload() {
    let data = ParseResult {
        records: vec![row(&[("Code", "T1")]), row(&[("Code", "")])],
        encoding: "utf-8".to_string(),
        delimiter: ';',
        headers: vec!["Code".to_string()],
    };
    let mut matrix = TransformationMatrix::new();
    matrix.transforms.insert(
        "iswc".to_string(),
        FieldTransform::from_source("Code").with_default(Value::String("T0".to_string())),
    );
    let options = TransformOptions::default();
    let reject_t0 = |record: &Value| match record.get("iswc") {
        Some(Value::String(code)) if code == "T0" => vec!["no code".to_string()],
        _ => Vec::new(),
    };
    let trial = with_explicit_matrix(&data, matrix, &options, &reject_t0);
    let result = complete(trial, csv_info_of(&data));
    let response = UploadResponse::from_result(result, "job-1".to_string());
    assert_eq!(response.job_id, "job-1");
    assert_eq!(response.status, "warning");
    assert_eq!(response.musical_works.len(), 2);
    assert_eq!(response.metadata.total_works, 2);
    assert_eq!(response.metadata.estimated_cost, "0.10 AFT");
    assert_eq!(response.metadata.matrix_id, None);
    assert!(!response.metadata.cached);
    assert_eq!(response.metadata.csv_info.encoding, "utf-8");
    assert_eq!(response.metadata.csv_info.delimiter, ";");
    assert_eq!(response.metadata.csv_info.row_count, 2);
    assert_eq!(response.metadata.csv_info.columns, vec!["Code".to_string()]);
    assert_eq!(response.metadata.validation.valid, 1);
    assert_eq!(response.metadata.validation.invalid, 1);
    assert_eq!(response.metadata.validation.errors.len(), 1);
    assert_eq!(response.metadata.validation.errors[0].record_index, 1);
    assert_eq!(response.metadata.validation.errors[0].errors, vec!["no code".to_string()]);

    let trial = with_explicit_matrix(&data, TransformationMatrix::new(), &options, &reject_t0);
    let response = UploadResponse::from(complete(trial, csv_info_of(&data)));
    assert_eq!(response.status, "ready");
    assert_eq!(response.job_id.len(), 36);
    assert_eq!(response.metadata.estimated_cost, "0.00 AFT");
}

#[test]
fn answer_to_an_error() {
    let response = error_response_for("No file provided", "job-2".to_string());
    assert_eq!(response.get("jobId"), Some(&Value::String("job-2".to_string())));
    assert_eq!(response.get("status"), Some(&Value::String("error".to_string())));
    assert_eq!(response.get("error"), Some(&Value::String("No file provided".to_string())));
    assert_eq!(response.get("musicalWorks"), Some(&Value::Array(vec![])));
    let metadata = response.get("metadata").unwrap();
    assert_eq!(metadata.get("totalWorks"), Some(&Value::Number(0)));
    assert_eq!(metadata.get("estimatedCost"), Some(&Value::String("0 AFT".to_string())));
    assert_eq!(metadata.get("matrixId"), Some(&Value::Null));
    assert_eq!(metadata.get("cached"), Some(&Value::Bool(false)));
    let fresh = error_response("x");
    let id = fresh.get("jobId").unwrap().as_str().unwrap();
    assert_eq!(id.len(), 36);
    assert_ne!(error_response("x").get("jobId").unwrap().as_str().unwrap(), id);
}

#[test]
fn test_midds_format_passthrough() {
    let object = |fields: Vec<(&str, Value)>| {
        Value::Object(
            fields.into_iter().map(|(k, v)| Entry { key: k.to_string(), value: v }).collect(),
        )
    };
    let text = |s: &str| Value::String(s.to_string());
    let work = object(vec![
        ("iswc", text("T1234567890")),
        ("title", text("My Song")),
        ("creationYear", Value::Number(2024)),
        ("instrumental", Value::Bool(false)),
        ("language", text("English")),
        (
            "creators",
            Value::Array(vec![object(vec![
                ("id", object(vec![("Ipi", Value::Number(123456789))])),
                ("role", text("Composer")),
            ])]),
        ),
        ("workType", text("Original")),
    ]);

    let midds = massload::api::types::ensure_midds_format(work.clone());

    assert_eq!(midds.get("iswc"), Some(&text("T1234567890")));
    assert_eq!(midds.get("title"), Some(&text("My Song")));
    assert_eq!(midds.get("creationYear"), Some(&Value::Number(2024)));
    assert_eq!(
        midds.get("creators").unwrap().as_array().unwrap()[0].get("role"),
        Some(&text("Composer"))
    );
    assert_eq!(midds, work);
}
