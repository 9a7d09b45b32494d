use datainspect::diagnose::{diagnose, Warning};
use datainspect::profile::{ColumnKind, ColumnProfile, Outcome};
use datainspect::table::{initial_kind, ProfileTable};

/// Feeds values the way a caller does, judging outliers with running
/// moments of the samples taken so far.
fn feed(values: &[&str]) -> (ColumnProfile, Vec<Outcome>) {
    let first = values.iter().find(|v| !v.is_empty()).copied().unwrap_or("");
    let mut p = ColumnProfile::new("col", initial_kind(values.first().copied().unwrap_or(first)));
    let (mut n, mut mean, mut m2) = (0u64, 0.0f64, 0.0f64);
    let mut outcomes = Vec::new();
    for v in values {
        let x = v.parse::<f64>().ok();
        let far = match x {
            Some(x) if n >= 2 => {
                let sd = (m2 / (n as f64 - 1.0)).sqrt();
                sd > 0.0 && (x - mean).abs() / sd >= 5.0
            }
            _ => false,
        };
        let o = p.update(v, far);
        if o == Outcome::Sample {
            let x = x.unwrap();
            n += 1;
            let d = x - mean;
            mean += d / n as f64;
            m2 += d * (x - mean);
        }
        outcomes.push(o);
    }
    (p, outcomes)
}

#[test]
fn numeric_column_with_outlier() {
    let (p, _) = feed(&["1", "2", "3", "4", "100"]);
    assert_eq!(p.kind(), ColumnKind::Numeric);
    assert_eq!(p.total(), 5);
    assert_eq!(p.missing(), 0);
    assert_eq!(p.sample_count(), 5);
    assert_eq!(p.numeric_parse_failures(), 0);
    // z(100) = 97.5 / sqrt(5/3) is far beyond 5
    assert_eq!(p.outlier_count(), 1);
    let w = diagnose(&p, false, 5);
    assert_eq!(w, vec![Warning::ExtremeOutliers { count: 1 }]);
}

#[test]
fn categorical_column_with_missing() {
    let (p, outcomes) = feed(&["a", "b", "", "c", "a"]);
    assert_eq!(p.kind(), ColumnKind::Categorical);
    assert_eq!(p.missing(), 1);
    assert_eq!(p.unique_count(), 3);
    assert_eq!(p.unique_values(), vec!["a".to_string(), "b".to_string(), "c".to_string()]);
    assert_eq!(outcomes[2], Outcome::Missing);
    let w = diagnose(&p, false, 5);
    assert!(!w.iter().any(|w| matches!(w, Warning::HighCardinality { .. })));
    assert_eq!(w, vec![Warning::MissingValues { missing: 1, total_rows: 5 }]);
}

#[test]
fn mixed_numeric_column() {
    let (p, outcomes) = feed(&["1", "x", "2", "3"]);
    assert_eq!(p.kind(), ColumnKind::Numeric);
    assert_eq!(outcomes[1], Outcome::ParseFailure);
    assert_eq!(p.numeric_parse_failures(), 1);
    assert_eq!(p.missing(), 0);
    assert_eq!(p.sample_count(), 3);
    let w = diagnose(&p, false, 4);
    assert_eq!(w, vec![Warning::MixedTypes]);
}

#[test]
fn leading_empties_then_promotion() {
    let mut t = ProfileTable::new(vec!["v".to_string()]);
    for v in ["", ""] {
        t.ingest(&vec![v.to_string()], &vec![false]);
    }
    assert_eq!(t.kind_of(0), Some(ColumnKind::Categorical));
    t.ingest(&vec!["5".to_string()], &vec![false]);
    assert_eq!(t.kind_of(0), Some(ColumnKind::Numeric));
    t.ingest(&vec!["6".to_string()], &vec![false]);
    let p = t.column(0).unwrap();
    assert_eq!(p.kind(), ColumnKind::Numeric);
    assert_eq!(p.total(), 4);
    assert_eq!(p.missing(), 2);
    assert_eq!(p.sample_count(), 2);
    assert_eq!(p.unique_count(), 0);
    assert_eq!(t.row_count(), 4);
}

#[test]
fn promotion_value_is_first_sample() {
    let (p, outcomes) = feed(&["a", "b", "7"]);
    assert_eq!(outcomes, vec![Outcome::Category, Outcome::Category, Outcome::Sample]);
    assert_eq!(p.kind(), ColumnKind::Numeric);
    assert_eq!(p.sample_count(), 1);
    assert_eq!(p.unique_count(), 0);
}

#[test]
fn numeric_never_reverts() {
    let (p, outcomes) = feed(&["1", "a", "b", "true", "2"]);
    assert_eq!(p.kind(), ColumnKind::Numeric);
    assert_eq!(outcomes[1..4], [Outcome::ParseFailure; 3]);
    assert_eq!(p.numeric_parse_failures(), 3);
    assert_eq!(p.missing(), 0);
}

#[test]
fn missing_counts_only_empty_values() {
    let (p, _) = feed(&["", "1", "", "zz", "", "2"]);
    assert_eq!(p.missing(), 3);
    assert_eq!(p.total(), 6);
    assert_eq!(p.numeric_parse_failures(), 1);
}

#[test]
fn first_two_samples_never_outliers() {
    let mut p = ColumnProfile::new("c", ColumnKind::Numeric);
    p.update("1", true);
    p.update("1000000", true);
    assert_eq!(p.outlier_count(), 0);
    p.update("5", true);
    assert_eq!(p.outlier_count(), 1);
}

#[test]
fn distinct_count_ignores_order() {
    let (a, _) = feed(&["x", "y", "x", "z", "", "y"]);
    let (b, _) = feed(&["y", "", "z", "y", "x", "x"]);
    assert_eq!(a.unique_count(), 3);
    assert_eq!(b.unique_count(), 3);
}

#[test]
fn float_stream_counts_every_value() {
    let (p, _) = feed(&["1.5", "2", "-3e2", "inf"]);
    assert_eq!(p.sample_count(), 4);
    assert_eq!(p.numeric_parse_failures(), 0);
}

#[test]
fn diagnosis_is_repeatable() {
    let (p, _) = feed(&["1", "", "x", "1"]);
    let first = diagnose(&p, true, 4);
    let second = diagnose(&p, true, 4);
    assert_eq!(first, second);
    assert_eq!(
        first,
        vec![
            Warning::MissingValues { missing: 1, total_rows: 4 },
            Warning::NearConstant,
            Warning::MixedTypes,
        ]
    );
}

#[test]
fn high_cardinality_warning() {
    let (p, _) = feed(&["a", "b", "c", "d"]);
    assert_eq!(diagnose(&p, false, 4), vec![Warning::HighCardinality { unique: 4, non_missing: 4 }]);
}

#[test]
fn cardinality_exactly_ninety_five_percent_is_clean() {
    let values: Vec<String> = (0..20).map(|i| if i == 19 { "v0".to_string() } else { format!("v{}", i) }).collect();
    let refs: Vec<&str> = values.iter().map(|s| s.as_str()).collect();
    let (p, _) = feed(&refs);
    assert_eq!(p.unique_count(), 19);
    assert!(diagnose(&p, false, 20).is_empty());
}

#[test]
fn missing_exactly_five_percent_is_clean() {
    let mut values = vec!["1"; 19];
    values.push("");
    let (p, _) = feed(&values);
    assert!(diagnose(&p, false, 20).is_empty());
    let mut more = vec!["1"; 18];
    more.push("");
    let (q, _) = feed(&more);
    assert_eq!(diagnose(&q, false, 19), vec![Warning::MissingValues { missing: 1, total_rows: 19 }]);
}

#[test]
fn near_constant_needs_a_sample() {
    let p = ColumnProfile::new("c", ColumnKind::Numeric);
    assert!(diagnose(&p, true, 0).is_empty());
    let (q, _) = feed(&["3", "3"]);
    assert_eq!(diagnose(&q, true, 2), vec![Warning::NearConstant]);
}

#[test]
fn all_missing_column() {
    let (p, _) = feed(&["", "", ""]);
    assert_eq!(p.kind(), ColumnKind::Categorical);
    assert_eq!(
        diagnose(&p, false, 3),
        vec![Warning::MissingValues { missing: 3, total_rows: 3 }]
    );
}

#[test]
fn table_creates_columns_lazily() {
    let t = ProfileTable::new(vec!["a".to_string(), "b".to_string()]);
    assert_eq!(t.column_count(), 2);
    assert!(t.column(0).is_none());
    assert_eq!(t.kind_of(1), None);
}

#[test]
fn table_tracks_columns_independently() {
    let mut t = ProfileTable::new(vec!["id".to_string(), "city".to_string()]);
    t.ingest(&vec!["1".to_string(), "Oslo".to_string()], &vec![false, false]);
    t.ingest(&vec!["2".to_string(), "Rome".to_string()], &vec![false, false]);
    t.ingest(&vec!["3".to_string(), "Oslo".to_string()], &vec![false, false]);
    let id = t.column(0).unwrap();
    let city = t.column(1).unwrap();
    assert_eq!(id.name(), "id");
    assert_eq!(id.kind(), ColumnKind::Numeric);
    assert_eq!(id.sample_count(), 3);
    assert_eq!(city.name(), "city");
    assert_eq!(city.kind(), ColumnKind::Categorical);
    assert_eq!(city.unique_count(), 2);
    assert_eq!(t.row_count(), 3);
}
