use massload::{flat_to_grouped, Entry, Value};

fn text(s: &str) -> Value {
    Value::String(s.to_string())
}

fn object(fields: Vec<(&str, Value)>) -> Value {
    Value::Object(
        fields.into_iter().map(|(k, v)| Entry { key: k.to_string(), value: v }).collect(),
    )
}

#[test]
fn test_single_work_multiple_creators() {
    let rows = vec![
        object(vec![
            ("iswc", text("T1234567890")),
            ("title", text("My Song")),
            ("creationYear", Value::Number(2024)),
            ("language", text("English")),
            ("creatorIpi", Value::Number(123456789)),
            ("creatorRole", text("Composer")),
        ]),
        object(vec![
            ("iswc", text("T1234567890")),
            ("title", text("My Song")),
            ("creationYear", Value::Number(2024)),
            ("language", text("English")),
            ("creatorIpi", Value::Number(123456789)),
            ("creatorRole", text("Author")),
        ]),
    ];

    let grouped = flat_to_grouped(rows);

    assert_eq!(grouped.len(), 1);
    let work = &grouped[0];
    assert_eq!(work.get("iswc"), Some(&text("T1234567890")));
    assert_eq!(work.get("title"), Some(&text("My Song")));
    assert_eq!(work.get("creators").unwrap().as_array().unwrap().len(), 2);
}

#[test]
fn test_sdk_format_ipi() {
    let rows = vec![object(vec![
        ("iswc", text("T1234567890")),
        ("title", text("Test")),
        ("creatorIpi", Value::Number(123)),
        ("creatorRole", text("Composer")),
    ])];

    let grouped = flat_to_grouped(rows);
    let creator = &grouped[0].get("creators").unwrap().as_array().unwrap()[0];

    assert_eq!(creator.get("id").unwrap().get("type"), Some(&text("Ipi")));
    assert_eq!(creator.get("id").unwrap().get("value"), Some(&Value::Number(123)));
    assert_eq!(creator.get("role"), Some(&text("Composer")));
}

#[test]
fn test_sdk_format_both() {
    let rows = vec![object(vec![
        ("iswc", text("T1234567890")),
        ("title", text("Test")),
        ("creatorIpi", Value::Number(123)),
        ("creatorIsni", text("0000000121464388")),
        ("creatorRole", text("Composer")),
    ])];

    let grouped = flat_to_grouped(rows);
    let creator = &grouped[0].get("creators").unwrap().as_array().unwrap()[0];
    let id = creator.get("id").unwrap();

    assert_eq!(id.get("type"), Some(&text("Both")));
    assert_eq!(id.get("value").unwrap().get("ipi"), Some(&Value::Number(123)));
    assert_eq!(id.get("value").unwrap().get("isni"), Some(&text("0000000121464388")));
}

#[test]
fn test_no_null_fields() {
    let rows = vec![object(vec![
        ("iswc", text("T1234567890")),
        ("title", text("Test")),
        ("creatorIpi", Value::Number(123)),
        ("creatorRole", text("Composer")),
    ])];

    let grouped = flat_to_grouped(rows);
    let work = &grouped[0];

    assert!(work.get("language").is_none());
    assert!(work.get("bpm").is_none());
    assert!(work.get("key").is_none());
    assert!(work.get("classicalInfo").is_none());
    assert!(work.get("workType").is_none());
}

#[test]
fn test_work_type_format() {
    let rows = vec![object(vec![
        ("iswc", text("T1234567890")),
        ("title", text("Test")),
        ("workType", text("Original")),
        ("creatorIpi", Value::Number(123)),
        ("creatorRole", text("Composer")),
    ])];

    let grouped = flat_to_grouped(rows);

    assert_eq!(grouped[0].get("workType").unwrap().get("type"), Some(&text("Original")));
}

#[test]
fn first_record_wins_the_scalar_fields() {
    let rows = vec![
        object(vec![
            ("iswc", text("T1234567890")),
            ("title", text("First Title")),
            ("creatorIpi", Value::Number(1)),
            ("creatorRole", text("Composer")),
        ]),
        object(vec![
            ("iswc", text("T1234567890")),
            ("title", text("Second Title")),
            ("language", text("French")),
            ("creatorIpi", Value::Number(2)),
            ("creatorRole", text("Author")),
        ]),
    ];
    let grouped = flat_to_grouped(rows);
    assert_eq!(grouped.len(), 1);
    let work = &grouped[0];
    assert_eq!(work.get("title"), Some(&text("First Title")));
    assert!(work.get("language").is_none());
    let creators = work.get("creators").unwrap().as_array().unwrap();
    assert_eq!(creators.len(), 2);
    assert_eq!(creators[0].get("role"), Some(&text("Composer")));
    assert_eq!(creators[1].get("role"), Some(&text("Author")));
    assert_eq!(creators[1].get("id").unwrap().get("value"), Some(&Value::Number(2)));
}

#[test]
fn works_come_in_order_of_first_appearance() {
    let rows = vec![
        object(vec![("iswc", text("T2")), ("title", text("b"))]),
        object(vec![("iswc", text("T1")), ("title", text("a"))]),
        object(vec![("iswc", text("T2")), ("title", text("c"))]),
        object(vec![("title", text("no code"))]),
        object(vec![("iswc", Value::Number(5)), ("title", text("no text code"))]),
        text("no record"),
    ];
    let grouped = flat_to_grouped(rows);
    assert_eq!(grouped.len(), 2);
    assert_eq!(grouped[0].get("iswc"), Some(&text("T2")));
    assert_eq!(grouped[0].get("title"), Some(&text("b")));
    assert_eq!(grouped[1].get("iswc"), Some(&text("T1")));
}

#[test]
fn record_without_identity_seeds_but_adds_no_creator() {
    let rows = vec![
        object(vec![
            ("iswc", text("T1")),
            ("title", text("Seed")),
            ("creatorRole", text("Composer")),
        ]),
        object(vec![("iswc", text("T1")), ("creatorIpi", Value::Number(9))]),
        object(vec![
            ("iswc", text("T1")),
            ("creatorIsni", text("000000012146438X")),
            ("creatorRole", text("Author")),
        ]),
    ];
    let grouped = flat_to_grouped(rows);
    assert_eq!(grouped.len(), 1);
    assert_eq!(grouped[0].get("title"), Some(&text("Seed")));
    let creators = grouped[0].get("creators").unwrap().as_array().unwrap();
    assert_eq!(creators.len(), 1);
    assert_eq!(creators[0].get("id").unwrap().get("type"), Some(&text("Isni")));
    assert_eq!(creators[0].get("id").unwrap().get("value"), Some(&text("000000012146438X")));
}

#[test]
fn grouped_work_in_full() {
    let rows = vec![object(vec![
        ("iswc", text("T1")),
        ("title", text("Sonata")),
        ("creationYear", Value::Number(1801)),
        ("instrumental", Value::Bool(true)),
        ("language", text("German")),
        ("bpm", Value::Number(60)),
        ("key", text("Cs")),
        ("workType", text("Original")),
        ("opus", text("Op. 27")),
        ("numberOfVoices", Value::Number(1)),
    ])];
    let grouped = flat_to_grouped(rows);
    let expected = object(vec![
        ("iswc", text("T1")),
        ("title", text("Sonata")),
        ("creators", Value::Array(vec![])),
        ("participants", Value::Array(vec![])),
        ("creationYear", Value::Number(1801)),
        ("instrumental", Value::Bool(true)),
        ("language", text("German")),
        ("bpm", Value::Number(60)),
        ("key", text("Cs")),
        ("workType", object(vec![("type", text("Original"))])),
        (
            "classicalInfo",
            object(vec![("opus", text("Op. 27")), ("numberOfVoices", Value::Number(1))]),
        ),
    ]);
    assert_eq!(grouped, vec![expected]);
}

#[test]
fn fields_of_another_kind_are_left_out() {
    let rows = vec![object(vec![
        ("iswc", text("T1")),
        ("title", Value::Number(7)),
        ("creationYear", text("1999")),
        ("instrumental", text("yes")),
        ("bpm", Value::Null),
    ])];
    let grouped = flat_to_grouped(rows);
    assert_eq!(grouped[0].get("title"), Some(&text("")));
    assert!(grouped[0].get("creationYear").is_none());
    assert!(grouped[0].get("instrumental").is_none());
    assert!(grouped[0].get("bpm").is_none());
    assert!(flat_to_grouped(vec![]).is_empty());
}
