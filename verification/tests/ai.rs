use massload::ai::{after_failed_attempt, extract_json, AiClient, AiError, RetryDecision};

#[test]
fn test_extract_json_from_code_block() {
    let response = r#"Here's the matrix:

```json
{
  "version": "1.0",
  "transforms": {}
}
```

Done!"#;

    let json = extract_json(response);
    assert!(json.contains("\"version\""));
    assert!(json.contains("\"transforms\""));
}

#[test]
fn test_extract_raw_json() {
    let response = r#"{"version": "1.0", "transforms": {}}"#;
    let json = extract_json(response);
    assert_eq!(json, response);
}

#[test]
fn extract_json_exact_blocks() {
    assert_eq!(extract_json("x ```json\n{\"a\": 1}\n```\n y"), "{\"a\": 1}");
    assert_eq!(extract_json("```json {\"a\": 1} ```"), "{\"a\": 1}");
    assert_eq!(extract_json("see ```\n[1, 2]\n``` end"), "[1, 2]");
    assert_eq!(extract_json("```text\n{\"b\": 2}```"), "{\"b\": 2}");
    assert_eq!(extract_json("before {\"a\": {\"b\": 1}} after"), "{\"a\": {\"b\": 1}}");
    assert_eq!(extract_json("} and {"), "} and {");
    assert_eq!(extract_json("no json here"), "no json here");
    assert_eq!(extract_json(""), "");
    assert_eq!(extract_json("é ```json\n{\"é\": \"ü\"}\n```"), "{\"é\": \"ü\"}");
}

#[test]
fn extract_json_falls_through_an_unclosed_json_fence() {
    assert_eq!(extract_json("```json {\"a\": 1}"), "{\"a\": 1}");
}

#[test]
fn client_setup() {
    let client = AiClient::new("key".to_string());
    assert_eq!(client.api_key(), "key");
    assert_eq!(client.model(), "");
    assert_eq!(client.max_tokens(), 1024);
    let client = client.with_model("some-model").with_max_tokens(2048);
    assert_eq!(client.api_key(), "key");
    assert_eq!(client.model(), "some-model");
    assert_eq!(client.max_tokens(), 2048);
}

#[test]
fn three_attempts_one_second_apart() {
    assert_eq!(after_failed_attempt(1), RetryDecision::RetryAfter(1000));
    assert_eq!(after_failed_attempt(2), RetryDecision::RetryAfter(1000));
    assert_eq!(after_failed_attempt(3), RetryDecision::GiveUp);
    assert_eq!(after_failed_attempt(4), RetryDecision::GiveUp);
}

#[test]
fn generator_error_texts() {
    assert_eq!(AiError::MissingApiKey("k".to_string()).to_string(), "Missing API key: k");
    assert_eq!(AiError::RequestFailed("r".to_string()).to_string(), "HTTP request failed: r");
    assert_eq!(AiError::InvalidJson("j".to_string()).to_string(), "Invalid JSON response: j");
    assert_eq!(AiError::ApiError("a".to_string()).to_string(), "API error: a");
    assert_eq!(AiError::ParseError("p".to_string()).to_string(), "Failed to parse matrix: p");
}
