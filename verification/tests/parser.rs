use massload::parser::{
    cells_of, csv_to_json, decode_content, detect_encoding, lines_of, normalize_charset,
    parse_bytes_auto, parse_string_with_metadata,
};
use massload::{detect_delimiter, CsvError, Value};

fn text(s: &str) -> Value {
    Value::String(s.to_string())
}

#[test]
fn test_error_message_format() {
    let err = CsvError::new(5, "Invalid value").with_column("age").with_value("abc");

    let msg = err.to_string();
    assert!(msg.contains("Line 5"));
    assert!(msg.contains("column 'age'"));
    assert!(msg.contains("value 'abc'"));
}

#[test]
fn error_message_exact() {
    let err = CsvError::new(5, "Invalid value");
    assert_eq!(err.to_string(), "Line 5: Invalid value");
    let err = err.with_column("age");
    assert_eq!(err.to_string(), "Line 5, column 'age': Invalid value");
    let err = err.with_value("abc");
    assert_eq!(err.to_string(), "Line 5, column 'age' (value 'abc'): Invalid value");
    let only_value = CsvError::new(0, "m").with_value("v");
    assert_eq!(only_value.to_string(), "Line 0: m");
    assert_eq!(CsvError::new(usize::MAX, "").to_string(), format!("Line {}: ", usize::MAX));
}

#[test]
fn test_detect_delimiter_semicolon() {
    let content = "a;b;c\n1;2;3";
    assert_eq!(detect_delimiter(content), ';');
}

#[test]
fn test_detect_delimiter_comma() {
    let content = "a,b,c\n1,2,3";
    assert_eq!(detect_delimiter(content), ',');
}

#[test]
fn test_detect_delimiter_tab() {
    let content = "a\tb\tc\n1\t2\t3";
    assert_eq!(detect_delimiter(content), '\t');
}

#[test]
fn test_detect_delimiter_pipe() {
    let content = "a|b|c\n1|2|3";
    assert_eq!(detect_delimiter(content), '|');
}

#[test]
fn detect_delimiter_looks_at_the_first_line_only() {
    assert_eq!(detect_delimiter("a,b\n1;2;3;4"), ',');
    assert_eq!(detect_delimiter(""), ';');
    assert_eq!(detect_delimiter("abc"), ';');
    assert_eq!(detect_delimiter("\na,b,c"), ';');
}

#[test]
fn detect_delimiter_prefers_the_earlier_among_equals() {
    assert_eq!(detect_delimiter("a;b,c"), ';');
    assert_eq!(detect_delimiter("a,b|c"), ',');
    assert_eq!(detect_delimiter("a|b\tc"), '\t');
    assert_eq!(detect_delimiter("a|b|c;d"), '|');
}

#[test]
fn test_simple_csv() {
    let csv = "name;age\nAlice;30\nBob;25";
    let rows = csv_to_json(csv, ';').unwrap();

    assert_eq!(rows.len(), 2);
    assert_eq!(rows[0].get("name"), Some(&text("Alice")));
    assert_eq!(rows[0].get("age"), Some(&text("30")));
    assert_eq!(rows[1].get("name"), Some(&text("Bob")));
    assert_eq!(rows[1].get("age"), Some(&text("25")));
}

#[test]
fn test_comma_delimiter() {
    let csv = "a,b,c\n1,2,3";
    let rows = csv_to_json(csv, ',').unwrap();

    assert_eq!(rows[0].get("a"), Some(&text("1")));
    assert_eq!(rows[0].get("b"), Some(&text("2")));
    assert_eq!(rows[0].get("c"), Some(&text("3")));
}

#[test]
fn test_quoted_values() {
    let csv = r#"name;value
"Alice";"Hello World""#;
    let rows = csv_to_json(csv, ';').unwrap();

    assert_eq!(rows[0].get("name"), Some(&text("Alice")));
    assert_eq!(rows[0].get("value"), Some(&text("Hello World")));
}

#[test]
fn test_empty_lines_skipped() {
    let csv = "a;b\n1;2\n\n3;4\n";
    let rows = csv_to_json(csv, ';').unwrap();

    assert_eq!(rows.len(), 2);
}

#[test]
fn test_missing_values() {
    let csv = "a;b;c\n1;;3";
    let rows = csv_to_json(csv, ';').unwrap();

    assert_eq!(rows[0].get("a"), Some(&text("1")));
    assert_eq!(rows[0].get("b"), Some(&text("")));
    assert_eq!(rows[0].get("c"), Some(&text("3")));
}

#[test]
fn test_extra_columns_ignored() {
    let csv = "a;b\n1;2;3;4";
    let rows = csv_to_json(csv, ';').unwrap();

    assert_eq!(rows[0].get("a"), Some(&text("1")));
    assert_eq!(rows[0].get("b"), Some(&text("2")));
}

#[test]
fn test_empty_csv_error() {
    let result = csv_to_json("", ';');
    assert!(result.is_err());
    let err = result.unwrap_err();
    assert!(err.message.contains("Empty"));
}

#[test]
fn test_auto_parse() {
    let csv = "name;age\nAlice;30\nBob;25";
    let result = parse_bytes_auto(csv.as_bytes()).unwrap();

    assert_eq!(result.delimiter, ';');
    assert_eq!(result.records.len(), 2);
    assert_eq!(result.headers, vec!["name", "age"]);
}

#[test]
fn test_latin1_decoding() {
    let bytes: &[u8] = &[0x53, 0x6F, 0x63, 0x69, 0xE9, 0x74, 0xE9];
    let decoded = decode_content(bytes, "iso-8859-1").unwrap();
    assert!(decoded.contains("Soci"));
}

#[test]
fn decoding_by_encoding() {
    let bytes: &[u8] = &[0x53, 0x6F, 0x63, 0x69, 0xE9, 0x74, 0xE9, 0xA4, 0x80];
    assert_eq!(decode_content(bytes, "Latin1").unwrap(), "Soci\u{e9}t\u{e9}\u{20ac}\u{80}");
    assert_eq!(decode_content(bytes, "cp1252").unwrap(), "Soci\u{e9}t\u{e9}\u{a4}\u{20ac}");
    assert_eq!(decode_content(bytes, "utf-8").unwrap(), "Soci\u{fffd}t\u{9900}");
    assert_eq!(decode_content(&[0x53, 0xE9, 0x74, 0xFF], "utf-8").unwrap(), "S\u{fffd}t\u{fffd}");
    assert_eq!(decode_content("Société".as_bytes(), "UTF8").unwrap(), "Société");
    assert_eq!(decode_content("Société".as_bytes(), "unknown").unwrap(), "Société");
}

#[test]
fn encoding_names() {
    assert_eq!(normalize_charset("ASCII".to_string()), "utf-8");
    assert_eq!(normalize_charset("UTF8".to_string()), "utf-8");
    assert_eq!(normalize_charset("ISO-8859-15".to_string()), "iso-8859-1");
    assert_eq!(normalize_charset("Latin-1".to_string()), "iso-8859-1");
    assert_eq!(normalize_charset("CP1252".to_string()), "windows-1252");
    assert_eq!(normalize_charset("Big5".to_string()), "Big5");
    assert_eq!(detect_encoding(b"plain text; nothing else"), "utf-8");
    assert_eq!(detect_encoding("Société générale des éditeurs".as_bytes()), "utf-8");
}

#[test]
fn lines_of_a_text() {
    assert_eq!(lines_of(""), Vec::<String>::new());
    assert_eq!(lines_of("a"), vec!["a"]);
    assert_eq!(lines_of("a\n"), vec!["a"]);
    assert_eq!(lines_of("a\r\nb\r"), vec!["a", "b\r"]);
    assert_eq!(lines_of("a\n\nb\n\n"), vec!["a", "", "b", ""]);
    assert_eq!(lines_of("\n"), vec![""]);
    assert_eq!(lines_of("a\r\r\n"), vec!["a\r"]);
    for sample in ["", "a", "a\n", "a\r\nb\r", "a\n\nb\n\n", "\n", "\r\n\r", "x\ny"] {
        let expected: Vec<String> = sample.lines().map(|l| l.to_string()).collect();
        assert_eq!(lines_of(sample), expected);
    }
}

#[test]
fn cells_of_a_line() {
    assert_eq!(cells_of(" a ; \"b\" ;\"\"c\"", ';'), vec!["a", "b", "c"]);
    assert_eq!(cells_of("", ';'), vec![""]);
    assert_eq!(cells_of(";", ';'), vec!["", ""]);
    assert_eq!(cells_of("\"a;b\"", ';'), vec!["a", "b"]);
    assert_eq!(cells_of("\" a \"", ';'), vec![" a "]);
    assert_eq!(cells_of("\"\"\"", ','), vec![""]);
}

#[test]
fn parsing_in_full() {
    let content = "\"Code\"; Titre ;Code\r\nT1;Song;T2;extra\r\n  \r\nT3\r\n";
    let parsed = parse_string_with_metadata(content, ';', "utf-8".to_string()).unwrap();
    assert_eq!(parsed.headers, vec!["Code", "Titre", "Code"]);
    assert_eq!(parsed.encoding, "utf-8");
    assert_eq!(parsed.delimiter, ';');
    assert_eq!(parsed.records.len(), 2);
    assert_eq!(parsed.records[0].get("Code"), Some(&text("T2")));
    assert_eq!(parsed.records[0].get("Titre"), Some(&text("Song")));
    assert_eq!(parsed.records[0].as_object().unwrap().len(), 2);
    assert_eq!(parsed.records[1].get("Code"), Some(&text("")));
    assert_eq!(parsed.records[1].get("Titre"), Some(&text("")));

    let only_header = parse_string_with_metadata("a;b", ';', String::new()).unwrap();
    assert_eq!(only_header.headers, vec!["a", "b"]);
    assert!(only_header.records.is_empty());

    let blank_header = parse_string_with_metadata("\nx", ';', String::new()).unwrap();
    assert_eq!(blank_header.headers, vec![""]);
    assert_eq!(blank_header.records.len(), 1);

    let err = parse_string_with_metadata("", ';', String::new()).unwrap_err();
    assert_eq!(err.line, 1);
    assert_eq!(err.message, "Empty CSV file");
    assert_eq!(err.to_string(), "Line 1: Empty CSV file");
}

#[test]
fn auto_parse_of_latin_bytes() {
    let mut bytes: Vec<u8> = b"Titre,Auteur\n".to_vec();
    bytes.extend_from_slice(&[0x53, 0x6F, 0x63, 0x69, 0xE9, 0x74, 0xE9]);
    bytes.extend_from_slice(b",Bob\n");
    let parsed = parse_bytes_auto(&bytes).unwrap();
    assert_eq!(parsed.delimiter, ',');
    assert_eq!(parsed.headers, vec!["Titre", "Auteur"]);
    assert_eq!(parsed.records.len(), 1);
    assert_eq!(parsed.records[0].get("Auteur"), Some(&text("Bob")));
    assert!(parse_bytes_auto(b"").is_err());
}

#[test]
fn bytes_with_an_escape_are_taken_as_utf8() {
    assert_eq!(detect_encoding(&[0x1B]), "utf-8");
    assert_eq!(detect_encoding(&[b'a', 0x1B, b'b']), "utf-8");
    assert_eq!(detect_encoding(b"\x1b$B"), "utf-8");
    assert_eq!(detect_encoding(&[0xE9, 0x1B, 0xE9]), "utf-8");
    assert!(massload::parser::contains_escape(&[0, 1, 0x1B]));
    assert!(!massload::parser::contains_escape(&[0, 1, 0x1A, 0x1C]));
    assert!(!massload::parser::contains_escape(&[]));
    let parsed = parse_bytes_auto(b"a;b\n1;\x1b2\n").unwrap();
    assert_eq!(parsed.encoding, "utf-8");
    assert_eq!(parsed.delimiter, ';');
    assert_eq!(parsed.records.len(), 1);
    assert_eq!(parsed.records[0].get("b"), Some(&text("\u{1b}2")));
}
