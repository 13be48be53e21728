use massload::{Mapping, Operation, Value};

fn text(s: &str) -> Value {
    Value::String(s.to_string())
}

#[test]
fn test_trim() {
    let op = Operation::Trim;
    assert_eq!(op.apply(&text("  hello  ")), text("hello"));
}

#[test]
fn test_map() {
    let mut mapping = Mapping::new();
    mapping.insert("CA".to_string(), "Composer".to_string());
    mapping.insert("A".to_string(), "Author".to_string());

    let op = Operation::Lookup {
        mapping: mapping.clone(),
        case_insensitive: true,
        default_unmapped: None,
    };
    assert_eq!(op.apply(&text("ca")), text("Composer"));

    assert_eq!(op.apply(&text("Unknown")), Value::String(String::new()));

    let op_with_default = Operation::Lookup {
        mapping,
        case_insensitive: true,
        default_unmapped: Some("Other".to_string()),
    };
    assert_eq!(op_with_default.apply(&text("Unknown")), text("Other"));
}

#[test]
fn test_to_number() {
    let op = Operation::ToNumber;
    assert_eq!(op.apply(&text("123456789")), Value::Number(123456789));
    assert_eq!(op.apply(&text("123-456-789")), Value::Number(123456789));
}

#[test]
fn test_extract_year() {
    let op = Operation::ExtractYear;
    assert_eq!(op.apply(&text("15/03/2024")), Value::Number(2024));
    assert_eq!(op.apply(&text("2023-12-25")), Value::Number(2023));
}

#[test]
fn test_ensure_prefix() {
    let op = Operation::EnsurePrefix { value: "T".to_string() };
    assert_eq!(op.apply(&text("1234567890")), text("T1234567890"));
    assert_eq!(op.apply(&text("T1234567890")), text("T1234567890"));
}

#[test]
fn to_number_of_empty_text_is_null() {
    assert_eq!(Operation::ToNumber.apply(&text("")), Value::Null);
    assert_eq!(Operation::ToNumber.apply(&text("abc")), Value::Null);
}

#[test]
fn to_number_keeps_a_leading_minus() {
    assert_eq!(Operation::ToNumber.apply(&text("  -12a3")), Value::Number(-123));
    assert_eq!(Operation::ToNumber.apply(&text("12-3")), Value::Number(123));
    assert_eq!(Operation::ToNumber.apply(&text("-9223372036854775808")), Value::Number(i64::MIN));
    assert_eq!(Operation::ToNumber.apply(&text("9223372036854775807")), Value::Number(i64::MAX));
}

#[test]
fn to_number_out_of_range_is_null() {
    assert_eq!(Operation::ToNumber.apply(&text("9223372036854775808")), Value::Null);
    assert_eq!(Operation::ToNumber.apply(&text("99999999999999999999999")), Value::Null);
}

#[test]
fn to_number_leaves_numbers_alone() {
    assert_eq!(Operation::ToNumber.apply(&Value::Number(7)), Value::Number(7));
    assert_eq!(
        Operation::ToNumber.apply(&Value::Decimal("1.5".to_string())),
        Value::Decimal("1.5".to_string())
    );
    assert_eq!(Operation::ToNumber.apply(&Value::Bool(true)), Value::Null);
}

#[test]
fn extract_year_without_a_date_is_null() {
    assert_eq!(Operation::ExtractYear.apply(&text("no date")), Value::Null);
    assert_eq!(Operation::ExtractYear.apply(&text("123")), Value::Null);
    assert_eq!(Operation::ExtractYear.apply(&Value::Null), Value::Null);
}

#[test]
fn extract_year_takes_the_first_four_digits() {
    assert_eq!(Operation::ExtractYear.apply(&text("x19991231")), Value::Number(1999));
    assert_eq!(Operation::ExtractYear.apply(&Value::Number(20240315)), Value::Number(2024));
}

#[test]
fn year_from_match_reads_what_was_matched() {
    assert_eq!(Operation::year_from_match(Some("2024".to_string())), Value::Number(2024));
    assert_eq!(Operation::year_from_match(Some("-12".to_string())), Value::Number(-12));
    assert_eq!(Operation::year_from_match(Some("+7".to_string())), Value::Number(7));
    assert_eq!(Operation::year_from_match(Some("١٢٣٤".to_string())), Value::Null);
    assert_eq!(Operation::year_from_match(Some("-".to_string())), Value::Null);
    assert_eq!(Operation::year_from_match(None), Value::Null);
}

#[test]
fn operations_leave_non_scalars_alone() {
    let array = Value::Array(vec![text("a")]);
    let object = Value::Object(vec![]);
    let ops = vec![
        Operation::Trim,
        Operation::Uppercase,
        Operation::Lowercase,
        Operation::Replace { pattern: "a".to_string(), value: "b".to_string() },
        Operation::PadStart { length: 5, char: "0".to_string() },
        Operation::PadEnd { length: 5, char: "0".to_string() },
        Operation::EnsurePrefix { value: "T".to_string() },
        Operation::EnsureSuffix { value: "T".to_string() },
        Operation::Lookup {
            mapping: Mapping::new(),
            case_insensitive: false,
            default_unmapped: None,
        },
        Operation::Split { separator: ",".to_string() },
        Operation::Substring { start: 0, length: Some(1) },
        Operation::Alphanumeric,
        Operation::DigitsOnly,
        Operation::ExtractYear,
        Operation::ToNumber,
        Operation::ToBoolean { true_values: vec!["yes".to_string()] },
        Operation::ToBoolean { true_values: vec![] },
    ];
    let nested = Value::Array(vec![Value::Object(vec![]), Value::Number(2024)]);
    for op in &ops {
        assert_eq!(op.apply(&Value::Null), Value::Null);
        assert_eq!(op.apply(&array), array);
        assert_eq!(op.apply(&object), object);
        assert_eq!(op.apply(&nested), nested);
        assert_eq!(op.apply(&Value::Array(vec![])), Value::Array(vec![]));
    }
}

#[test]
fn case_operations() {
    assert_eq!(Operation::Uppercase.apply(&text("Straße")), text("STRASSE"));
    assert_eq!(Operation::Lowercase.apply(&text("ÉCOLE")), text("école"));
    assert_eq!(Operation::Uppercase.apply(&Value::Bool(true)), text("TRUE"));
    assert_eq!(Operation::Trim.apply(&Value::Number(-5)), text("-5"));
}

#[test]
fn replace_uses_the_pattern() {
    let op = Operation::Replace { pattern: "[-. ]".to_string(), value: "".to_string() };
    assert_eq!(op.apply(&text("T-123.456 789")), text("T123456789"));
    let groups = Operation::Replace { pattern: "(a)(b)".to_string(), value: "$2$1".to_string() };
    assert_eq!(groups.apply(&text("abab")), text("baba"));
}

#[test]
fn replace_with_an_invalid_pattern_changes_nothing() {
    let op = Operation::Replace { pattern: "(".to_string(), value: "x".to_string() };
    assert_eq!(op.apply(&text("a(b")), text("a(b"));
    assert_eq!(op.apply(&Value::Number(3)), Value::Number(3));
}

#[test]
fn replace_result_takes_the_outcome() {
    assert_eq!(Operation::replace_result(&text("a"), Some("b".to_string())), text("b"));
    assert_eq!(Operation::replace_result(&text("a"), None), text("a"));
    assert_eq!(Operation::replace_result(&Value::Number(1), None), Value::Number(1));
}

#[test]
fn padding_counts_bytes() {
    let start = Operation::PadStart { length: 5, char: "0".to_string() };
    assert_eq!(start.apply(&text("42")), text("00042"));
    assert_eq!(start.apply(&text("123456")), text("123456"));
    assert_eq!(start.apply(&text("é")), text("000é"));
    let end = Operation::PadEnd { length: 4, char: "xy".to_string() };
    assert_eq!(end.apply(&text("ab")), text("abxx"));
    let empty = Operation::PadEnd { length: 3, char: "".to_string() };
    assert_eq!(empty.apply(&text("a")), text("a00"));
    assert_eq!(start.apply(&Value::Number(7)), text("00007"));
}

#[test]
fn padding_takes_the_least_that_reaches_the_length() {
    let wide = Operation::PadStart { length: 5, char: "é".to_string() };
    assert_eq!(wide.apply(&text("a")), text("ééa"));
    assert_eq!(wide.apply(&text("ab")), text("ééab"));
    assert_eq!(wide.apply(&text("abcd")), text("éabcd"));
    assert_eq!(wide.apply(&text("abcde")), text("abcde"));
    let wider = Operation::PadEnd { length: 7, char: "€uro".to_string() };
    assert_eq!(wider.apply(&text("a")), text("a€€"));
    assert_eq!(wider.apply(&text("abcd")), text("abcd€"));
    assert_eq!(wider.apply(&text("")), text("€€€"));
    let widest = Operation::PadStart { length: 1, char: "😀".to_string() };
    assert_eq!(widest.apply(&text("")), text("😀"));
    let none = Operation::PadStart { length: 0, char: "😀".to_string() };
    assert_eq!(none.apply(&text("")), text(""));
}

#[test]
fn ensure_suffix() {
    let op = Operation::EnsureSuffix { value: ".mp3".to_string() };
    assert_eq!(op.apply(&text("song")), text("song.mp3"));
    assert_eq!(op.apply(&text("song.mp3")), text("song.mp3"));
    assert_eq!(op.apply(&text("")), text(".mp3"));
}

#[test]
fn lookup_with_and_without_case() {
    let mut mapping = Mapping::new();
    mapping.insert("CA".to_string(), "Composer".to_string());
    let exact = Operation::Lookup {
        mapping: mapping.clone(),
        case_insensitive: false,
        default_unmapped: Some("?".to_string()),
    };
    assert_eq!(exact.apply(&text("CA")), text("Composer"));
    assert_eq!(exact.apply(&text("ca")), text("?"));
    mapping.insert("CA".to_string(), "Author".to_string());
    assert_eq!(mapping.len(), 1);
    let replaced = Operation::Lookup { mapping, case_insensitive: true, default_unmapped: None };
    assert_eq!(replaced.apply(&text("Ca")), text("Author"));
}

#[test]
fn split_trims_the_pieces() {
    let op = Operation::Split { separator: ",".to_string() };
    assert_eq!(op.apply(&text("a, b ,c")), Value::Array(vec![text("a"), text("b"), text("c")]));
    assert_eq!(op.apply(&text("")), Value::Array(vec![text("")]));
    assert_eq!(op.apply(&text("a,,")), Value::Array(vec![text("a"), text(""), text("")]));
    let wide = Operation::Split { separator: "--".to_string() };
    assert_eq!(wide.apply(&text("a---b")), Value::Array(vec![text("a"), text("-b")]));
    let none = Operation::Split { separator: "".to_string() };
    assert_eq!(
        none.apply(&text("ab")),
        Value::Array(vec![text(""), text("a"), text("b"), text("")])
    );
}

#[test]
fn to_boolean_compares_without_case() {
    let op = Operation::ToBoolean { true_values: vec!["Oui".to_string(), "1".to_string()] };
    assert_eq!(op.apply(&text("OUI")), Value::Bool(true));
    assert_eq!(op.apply(&text("non")), Value::Bool(false));
    assert_eq!(op.apply(&Value::Number(1)), Value::Bool(true));
    assert_eq!(op.apply(&Value::Bool(false)), Value::Bool(false));
    assert_eq!(op.apply(&Value::Bool(true)), Value::Bool(true));
}

#[test]
fn substring_counts_characters() {
    let op = Operation::Substring { start: 1, length: Some(2) };
    assert_eq!(op.apply(&text("héllo")), text("él"));
    assert_eq!(op.apply(&text("h")), text(""));
    assert_eq!(op.apply(&text("")), text(""));
    let open = Operation::Substring { start: 2, length: None };
    assert_eq!(open.apply(&text("hello")), text("llo"));
    let far = Operation::Substring { start: 9, length: Some(1) };
    assert_eq!(far.apply(&text("hello")), text(""));
    let huge = Operation::Substring { start: 1, length: Some(usize::MAX) };
    assert_eq!(huge.apply(&text("hello")), text("ello"));
}

#[test]
fn character_filters() {
    assert_eq!(Operation::Alphanumeric.apply(&text("a-b é_1!")), text("abé1"));
    assert_eq!(Operation::DigitsOnly.apply(&text("IPI 00-12 ٣")), text("0012"));
}

#[test]
fn operations_description_lists_the_operations() {
    let table = massload::operations_description();
    assert!(table.starts_with("Available transformation operations:"));
    assert!(table.contains("| extract_year | Extract 4-digit year from date | - |"));
    assert!(table.ends_with("{\"type\": \"ensure_prefix\", \"value\": \"T\"}\n]"));
}

#[test]
fn whitespace_is_what_the_standard_library_takes_for_it() {
    for code in 0..=0x10FFFFu32 {
        if let Some(c) = char::from_u32(code) {
            assert_eq!(massload::text::is_whitespace(c), c.is_whitespace(), "U+{:04X}", code);
        }
    }
    assert_eq!(massload::text::trim_str("\u{3000}\u{85} a\u{a0}b \u{2003}\r\n"), "a\u{a0}b");
    assert_eq!(massload::text::trim_str("\u{200b}a\u{180e}"), "\u{200b}a\u{180e}");
}
