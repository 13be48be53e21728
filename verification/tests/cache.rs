use massload::cache::{make_id, slugify, RATE_ONE};
use massload::{
    example_matrix, Compatibility, FieldTransform, MatrixRegistry, StoredMatrix,
    TransformationMatrix,
};

fn columns(names: &[&str]) -> Vec<String> {
    names.iter().map(|n| n.to_string()).collect()
}

fn template(id: &str, cols: &[&str], success_rate: u32) -> StoredMatrix {
    StoredMatrix {
        id: id.to_string(),
        name: id.to_string(),
        matrix: TransformationMatrix::new(),
        csv_columns: columns(cols),
        created_at: "2024-01-01T00:00:00+00:00".to_string(),
        last_used: None,
        success_rate,
        use_count: 0,
    }
}

#[test]
fn test_compatibility_score() {
    let registry = MatrixRegistry::new();

    let stored = columns(&["ISWC", "Title", "Role"]);
    let csv = columns(&["ISWC", "Title", "Creator"]);

    let score = registry.calculate_compatibility(&stored, &csv);
    assert_eq!(score, Compatibility { matched: 2, total: 3 });
    assert!((score.matched as f64 / score.total as f64 - 0.666).abs() < 0.01);
}

#[test]
fn test_case_insensitive_match() {
    let registry = MatrixRegistry::new();

    let stored = columns(&["iswc", "TITLE"]);
    let csv = columns(&["ISWC", "title"]);

    let score = registry.calculate_compatibility(&stored, &csv);
    assert_eq!(score, Compatibility { matched: 2, total: 2 });
    assert!((score.matched as f64 / score.total as f64 - 1.0).abs() < 0.01);
}

#[test]
fn compatibility_of_no_columns_is_zero() {
    let registry = MatrixRegistry::new();
    let score = registry.calculate_compatibility(&vec![], &columns(&["a"]));
    assert_eq!(score, Compatibility { matched: 0, total: 0 });
    assert!(!score.is_above_half());
    let score = registry.calculate_compatibility(&columns(&["a", "a"]), &vec![]);
    assert_eq!(score, Compatibility { matched: 0, total: 2 });
}

#[test]
fn score_threshold_is_above_one_half() {
    assert!(!Compatibility { matched: 1, total: 2 }.is_above_half());
    assert!(Compatibility { matched: 2, total: 3 }.is_above_half());
    assert!(Compatibility { matched: 1, total: 1 }.is_above_half());
    assert!(!Compatibility { matched: 0, total: 1 }.is_above_half());
    assert!(Compatibility { matched: usize::MAX, total: usize::MAX }.is_above_half());
}

#[test]
fn ranking_goes_by_score_times_success_rate() {
    let ten = ["a", "b", "c", "d", "e", "f", "g", "h", "i", "j"];
    let mut registry = MatrixRegistry::new();
    registry.add(template("nine-of-ten", &ten, RATE_ONE / 2));
    let mut six = ten;
    for name in six.iter_mut().skip(6) {
        *name = "missing";
    }
    registry.add(template("six-of-ten", &six, RATE_ONE));
    let headers = columns(&ten[..9]);
    let found = registry.find_compatible(&headers);
    assert_eq!(found.len(), 2);
    assert_eq!(found[0].0.id, "six-of-ten");
    assert_eq!(found[0].1, Compatibility { matched: 6, total: 10 });
    assert_eq!(found[1].0.id, "nine-of-ten");
    assert_eq!(found[1].1, Compatibility { matched: 9, total: 10 });
    assert!(found[0].1.scores_above(RATE_ONE, &found[1].1, RATE_ONE / 2));
    assert!(!found[1].1.scores_above(RATE_ONE / 2, &found[0].1, RATE_ONE));
}

#[test]
fn ranking_compares_the_products_exactly() {
    let mut registry = MatrixRegistry::new();
    registry.add(template("one-of-one", &["a"], 666_666_666));
    registry.add(template("two-of-three", &["a", "b", "x"], RATE_ONE));
    registry.add(template("four-of-six", &["a", "b", "c", "d", "x", "y"], RATE_ONE));
    registry.add(template("one-of-one-more", &["a"], 666_666_667));
    let found = registry.find_compatible(&columns(&["a", "b", "c", "d"]));
    let ids: Vec<&str> = found.iter().map(|(m, _)| m.id.as_str()).collect();
    assert_eq!(ids, vec!["one-of-one-more", "two-of-three", "four-of-six", "one-of-one"]);
}

#[test]
fn ranking_leaves_out_what_does_not_fit_and_keeps_equals_in_order() {
    let mut registry = MatrixRegistry::new();
    registry.add(template("half", &["a", "x"], RATE_ONE));
    registry.add(template("first", &["a", "b"], RATE_ONE));
    registry.add(template("none", &[], RATE_ONE));
    registry.add(template("second", &["A", "B"], RATE_ONE));
    registry.add(template("weak", &["a", "b"], 1));
    let found = registry.find_compatible(&columns(&["a", "b"]));
    let ids: Vec<&str> = found.iter().map(|(m, _)| m.id.as_str()).collect();
    assert_eq!(ids, vec!["first", "second", "weak"]);
    assert!(MatrixRegistry::new().find_compatible(&columns(&["a"])).is_empty());
}

#[test]
fn products_are_compared_as_fractions() {
    let score = |matched: usize, total: usize| Compatibility { matched, total };
    assert!(score(2, 3).scores_above(RATE_ONE, &score(1, 1), 666_666_666));
    assert!(!score(1, 1).scores_above(666_666_666, &score(2, 3), RATE_ONE));
    assert!(score(1, 1).scores_above(666_666_667, &score(2, 3), RATE_ONE));
    assert!(!score(2, 3).scores_above(RATE_ONE, &score(4, 6), RATE_ONE));
    assert!(!score(4, 6).scores_above(RATE_ONE, &score(2, 3), RATE_ONE));
    assert!(score(6, 10).scores_above(RATE_ONE, &score(9, 10), RATE_ONE / 2));
    assert!(!score(1, 2).scores_above(0, &score(1, 2), 0));
    assert!(score(1, 2).scores_above(1, &score(1, 2), 0));
    assert!(!score(0, 0).scores_above(RATE_ONE, &score(1, 2), 1));
    assert!(!score(1, 2).scores_above(RATE_ONE, &score(0, 0), RATE_ONE));
    assert!(score(1, 0).scores_above(1, &score(0, 1), RATE_ONE));
    let most = score(usize::MAX, usize::MAX);
    let less = score(usize::MAX - 1, usize::MAX);
    assert!(most.scores_above(u32::MAX, &less, u32::MAX));
    assert!(!less.scores_above(u32::MAX, &most, u32::MAX));
    assert!(!most.scores_above(u32::MAX, &most, u32::MAX));
    assert!(most.scores_above(u32::MAX, &most, u32::MAX - 1));
    assert!(score(usize::MAX, 1).scores_above(u32::MAX, &score(usize::MAX, 2), u32::MAX));
}

#[test]
fn slug_and_identifier() {
    assert_eq!(slugify("My SACEM  Catalog (2024).csv"), "my-sacem-catalog-2024-csv");
    assert_eq!(slugify("--a--"), "a");
    assert_eq!(slugify("Été"), "été");
    assert_eq!(slugify("!!!"), "");
    assert_eq!(make_id("Catalog 1", 1700000000123), "catalog-1-1700000000123");
    assert_eq!(make_id("", -5), "--5");
}

#[test]
fn save_stores_a_fresh_template() {
    let mut registry = MatrixRegistry::new();
    let id = registry.save_at(
        example_matrix(),
        "Catalog 1",
        columns(&["Code ISWC", "Titre"]),
        1700000000123,
        "2023-11-14T22:13:20+00:00".to_string(),
    );
    assert_eq!(id, "catalog-1-1700000000123");
    assert_eq!(registry.len(), 1);
    let stored = registry.get(&id).unwrap();
    assert_eq!(stored.name, "Catalog 1");
    assert_eq!(stored.matrix, example_matrix());
    assert_eq!(stored.csv_columns, columns(&["Code ISWC", "Titre"]));
    assert_eq!(stored.created_at, "2023-11-14T22:13:20+00:00");
    assert_eq!(stored.last_used, None);
    assert_eq!(stored.success_rate, RATE_ONE);
    assert_eq!(stored.use_count, 0);
    assert!(registry.get("other").is_none());
    assert_eq!(registry.list().len(), 1);
}

#[test]
fn save_reads_the_clock() {
    let mut registry = MatrixRegistry::new();
    let id = registry.save(example_matrix(), "Now", columns(&["a"]));
    assert!(id.starts_with("now-"));
    let millis: i64 = id["now-".len()..].parse().unwrap();
    assert!(millis > 1_600_000_000_000);
    let stored = registry.get(&id).unwrap();
    assert!(stored.created_at.len() >= 20);
    assert!(stored.created_at.contains('T'));
}

#[test]
fn import_takes_the_single_sources_as_columns() {
    let mut matrix = TransformationMatrix::new();
    matrix.transforms.insert("iswc".to_string(), FieldTransform::from_source("Code"));
    matrix.transforms.insert(
        "title".to_string(),
        FieldTransform::from_sources(columns(&["A", "B"]), " "),
    );
    matrix.transforms.insert("role".to_string(), FieldTransform::from_source("Role"));
    let mut registry = MatrixRegistry::new();
    let id = registry.import_at(matrix, "imported", 1, "t".to_string());
    assert_eq!(id, "imported-1");
    assert_eq!(registry.get(&id).unwrap().csv_columns, columns(&["Code", "Role"]));
    let again = registry.import(TransformationMatrix::new(), "imported");
    assert!(again.starts_with("imported-"));
}

#[test]
fn update_stats_moves_the_average() {
    let mut registry = MatrixRegistry::new();
    registry.add(template("t", &["a"], RATE_ONE));
    assert!(registry.update_stats_at("t", false, "first".to_string()));
    let stored = registry.get("t").unwrap();
    assert_eq!(stored.success_rate, 900_000_000);
    assert_eq!(stored.use_count, 1);
    assert_eq!(stored.last_used, Some("first".to_string()));
    assert!(registry.update_stats_at("t", true, "second".to_string()));
    let stored = registry.get("t").unwrap();
    assert_eq!(stored.success_rate, 910_000_000);
    assert_eq!(stored.use_count, 2);
    assert_eq!(stored.last_used, Some("second".to_string()));
    assert!(!registry.update_stats_at("missing", true, "third".to_string()));
    assert_eq!(registry.get("t").unwrap().use_count, 2);
}

#[test]
fn update_stats_stays_within_bounds() {
    let mut registry = MatrixRegistry::new();
    registry.add(template("t", &["a"], RATE_ONE));
    registry.update_stats_at("t", true, "now".to_string());
    assert_eq!(registry.get("t").unwrap().success_rate, RATE_ONE);
    let mut full = template("full", &["a"], 7);
    full.use_count = u32::MAX;
    registry.add(full);
    registry.update_stats("full", false);
    let stored = registry.get("full").unwrap();
    assert_eq!(stored.use_count, u32::MAX);
    assert_eq!(stored.success_rate, 6);
    assert!(stored.last_used.is_some());
}

#[test]
fn delete_removes_or_reports() {
    let mut registry = MatrixRegistry::new();
    registry.add(template("a", &["x"], RATE_ONE));
    registry.add(template("b", &["x"], RATE_ONE));
    assert_eq!(registry.delete("a"), Ok(()));
    assert_eq!(registry.len(), 1);
    assert!(registry.get("a").is_none());
    assert!(registry.get("b").is_some());
    assert_eq!(registry.delete("a"), Err("Matrix not found: a".to_string()));
    assert_eq!(registry.len(), 1);
}

#[test]
fn add_replaces_a_template_of_the_same_identifier() {
    let mut registry = MatrixRegistry::new();
    registry.add(template("a", &["x"], RATE_ONE));
    registry.add(template("b", &["x"], RATE_ONE));
    registry.add(template("a", &["y"], 5));
    assert_eq!(registry.len(), 2);
    assert_eq!(registry.list()[0].csv_columns, columns(&["y"]));
    assert_eq!(registry.position("b"), 1);
    assert_eq!(registry.position("c"), 2);
}
