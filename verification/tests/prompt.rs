use massload::ai::prompt::{
    build_messages_with_all_data, extract_unique_values, marks_mapping_column, show_values,
    sorted_texts, user_prompt_with_all_data,
};
use massload::ai::{answer_text, api_failure, request_body, AiClient, AiError};
use massload::{Entry, Value};

fn text(s: &str) -> Value {
    Value::String(s.to_string())
}

fn object(fields: Vec<(&str, Value)>) -> Value {
    Value::Object(
        fields.into_iter().map(|(k, v)| Entry { key: k.to_string(), value: v }).collect(),
    )
}

fn strings(items: &[&str]) -> Vec<String> {
    items.iter().map(|s| s.to_string()).collect()
}

#[test]
fn test_user_prompt_includes_data() {
    let csv = vec![object(vec![("ISWC", text("T1234567890")), ("TITRE", text("Test"))])];
    let preview = "[\n  {\n    \"ISWC\": \"T1234567890\",\n    \"TITRE\": \"Test\"\n  }\n]";
    let schema = "{\n  \"type\": \"object\"\n}";

    let prompt = user_prompt_with_all_data(preview, csv.len(), &csv, schema);
    assert!(prompt.contains("T1234567890"));
    assert!(prompt.contains("TITRE"));
}

#[test]
fn user_prompt_in_full() {
    let rows = vec![object(vec![("Role", text("CA"))]), object(vec![("Role", text("A"))])];
    let prompt = user_prompt_with_all_data("PREVIEW", 1, &rows, "SCHEMA");
    let expected = "## CSV Data Preview (1 rows shown, 2 total)\n\n```json\nPREVIEW\n```\n\n\
## ALL Unique Values per Column (from 2 rows - IMPORTANT for mapping)\n\n- **Role**: A, CA\n\n\n\
## Target MIDDS Flat Schema\n\n```json\nSCHEMA\n```\n\n## Task\n\n\
Analyze the CSV columns and generate a transformation matrix.\n\
Map ALL unique values you see above (especially for Role column - map ALL role codes!).\n\n\
Return ONLY the JSON object matching the transformation matrix schema. No explanations.";
    assert_eq!(prompt, expected);
    let messages = build_messages_with_all_data("PREVIEW", 1, &rows, "SCHEMA");
    assert_eq!(messages, vec![object(vec![("role", text("user")), ("content", text(expected))])]);
}

#[test]
fn unique_values_by_column() {
    let rows = vec![
        object(vec![("Titre", text("b")), ("Role", text("CA")), ("n", Value::Number(1))]),
        object(vec![("Titre", text("a")), ("Role", text("CA"))]),
        text("no row"),
        object(vec![("Titre", text("b")), ("Autre", Value::Null)]),
    ];
    assert_eq!(
        extract_unique_values(&rows),
        "- **Autre**: \n- **Role**: CA\n- **Titre**: a, b\n- **n**: \n"
    );
    assert_eq!(extract_unique_values(&vec![]), "");
}

#[test]
fn many_values_are_sampled_unless_the_column_is_marked() {
    let values: Vec<String> = (10..50).map(|i| format!("v{}", i)).collect();
    let shown = show_values("Titre", &values);
    let first: Vec<&str> = values.iter().take(15).map(|s| s.as_str()).collect();
    assert_eq!(
        shown,
        format!("{}, ... (40 unique - high cardinality, sample shown)", first.join(", "))
    );
    assert_eq!(show_values("Creator ROLE", &values), values.join(", "));
    let many: Vec<String> = (100..151).map(|i| format!("v{}", i)).collect();
    assert_eq!(
        show_values("Type d'oeuvre", &many),
        format!("{} (51 unique values)", many.join(", "))
    );
    let thirty: Vec<String> = (10..40).map(|i| format!("v{}", i)).collect();
    assert_eq!(show_values("Titre", &thirty), thirty.join(", "));
    assert_eq!(show_values("Titre", &vec![]), "");
}

#[test]
fn marked_columns() {
    for name in ["Role", "GENRE musical", "work_type", "Instrumental?", "Language", "SOCIÉTÉ"] {
        assert!(marks_mapping_column(name));
    }
    for name in ["Titre", "IPI", "", "rol", "societe"] {
        assert!(!marks_mapping_column(name));
    }
}

#[test]
fn sorted_texts_are_unique() {
    assert_eq!(sorted_texts(&strings(&["b", "a", "b", "", "B", "a"])), strings(&["", "B", "a", "b"]));
    assert!(sorted_texts(&vec![]).is_empty());
}

#[test]
fn body_of_a_request() {
    let client = AiClient::new("k".to_string()).with_model("m").with_max_tokens(77);
    let body = request_body(&client, "SYSTEM", vec![text("message")]);
    assert_eq!(
        body,
        object(vec![
            ("model", text("m")),
            ("max_tokens", Value::Number(77)),
            ("temperature", Value::Number(0)),
            ("system", text("SYSTEM")),
            ("messages", Value::Array(vec![text("message")])),
        ])
    );
}

#[test]
fn answer_text_joins_the_text_blocks() {
    let body = object(vec![(
        "content",
        Value::Array(vec![
            object(vec![("type", text("text")), ("text", text("{\"a\":"))]),
            object(vec![("type", text("tool_use")), ("text", text("skipped"))]),
            object(vec![("type", text("text"))]),
            object(vec![("type", text("text")), ("text", text(" 1}"))]),
        ]),
    )]);
    assert_eq!(answer_text(&body), Ok("{\"a\": 1}".to_string()));
}

#[test]
fn answers_without_text_or_form() {
    let empty = object(vec![("content", Value::Array(vec![]))]);
    assert_eq!(answer_text(&empty), Err(AiError::InvalidJson("Empty response".to_string())));
    let other = object(vec![(
        "content",
        Value::Array(vec![object(vec![("type", text("image")), ("text", text("x"))])]),
    )]);
    assert_eq!(answer_text(&other), Err(AiError::InvalidJson("Empty response".to_string())));
    let malformed = || AiError::InvalidJson("unexpected form of the response".to_string());
    assert_eq!(answer_text(&Value::Null), Err(malformed()));
    assert_eq!(answer_text(&object(vec![("content", text("x"))])), Err(malformed()));
    let untyped = object(vec![("content", Value::Array(vec![object(vec![("text", text("x"))])]))]);
    assert_eq!(answer_text(&untyped), Err(malformed()));
    let bad_text = object(vec![(
        "content",
        Value::Array(vec![object(vec![("type", text("text")), ("text", Value::Number(1))])]),
    )]);
    assert_eq!(answer_text(&bad_text), Err(malformed()));
}

#[test]
fn failures_of_the_service() {
    let body = object(vec![("error", object(vec![("message", text("overloaded"))]))]);
    assert_eq!(
        api_failure("529", "{...}", Some(&body)),
        AiError::ApiError("overloaded".to_string())
    );
    assert_eq!(
        api_failure("500 Internal Server Error", "oops", None),
        AiError::ApiError("HTTP 500 Internal Server Error: oops".to_string())
    );
    let other = object(vec![("error", text("plain"))]);
    assert_eq!(
        api_failure("400", "body", Some(&other)),
        AiError::ApiError("HTTP 400: body".to_string())
    );
}
