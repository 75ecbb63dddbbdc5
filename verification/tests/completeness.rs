use xynergy::json::{Json, JsonNumber};
use xynergy::extract::parse_completeness_counts;
use xynergy::ids::valid_resource_id;

fn num(v: i64) -> Json {
    Json::Number(JsonNumber { text: v.to_string(), as_i64: Some(v) })
}

fn float(text: &str) -> Json {
    Json::Number(JsonNumber { text: text.to_string(), as_i64: None })
}

fn st(v: &str) -> Json {
    Json::Str(v.to_string())
}

fn obj(members: Vec<(&str, Json)>) -> Json {
    Json::Object(members.into_iter().map(|(k, v)| (k.to_string(), v)).collect())
}

#[test]
fn parse_completeness_uses_new_field_names() {
    let body = obj(vec![
        ("departments", Json::Array(vec![obj(vec![
            ("department_id", st("00000000-0000-0000-0000-000000000001")),
            ("department", st("Engineering")),
            ("total_employees", num(10)),
            ("with_ctc", num(7)),
            ("missing_ctc", num(3)),
            ("completion_pct", float("70.0")),
        ])])),
        ("total_employees", num(10)),
        ("total_with_ctc", num(7)),
        ("total_missing", num(3)),
        ("overall_completion_pct", float("70.0")),
        ("trend", Json::Array(vec![
            obj(vec![
                ("month", st("2026-04")),
                ("total_employees", num(9)),
                ("total_with_ctc", num(5)),
                ("total_missing", num(4)),
                ("completion_pct", float("55.6")),
            ]),
            obj(vec![
                ("month", st("2026-05")),
                ("total_employees", num(10)),
                ("total_with_ctc", num(7)),
                ("total_missing", num(3)),
                ("completion_pct", float("70.0")),
            ]),
        ])),
    ]);
    let parsed = parse_completeness_counts(&body);
    assert_eq!(parsed.total_employees, 10);
    assert_eq!(parsed.total_with_ctc, 7);
    assert_eq!(parsed.total_missing, 3);
    assert_eq!(parsed.departments.len(), 1);
    assert_eq!(parsed.departments[0].department, "Engineering");
    assert_eq!(parsed.departments[0].row_key, "00000000-0000-0000-0000-000000000001");
    assert_eq!(parsed.trend.len(), 2);
    assert_eq!(parsed.trend[0].month, "2026-04");
    assert_eq!(parsed.trend[1].total_with_ctc, 7);
}

#[test]
fn parse_completeness_handles_missing_optional_fields() {
    let body = obj(vec![
        ("departments", Json::Array(vec![])),
        ("total_employees", num(0)),
        ("total_with_ctc", num(0)),
        ("total_missing", num(0)),
        ("overall_completion_pct", float("0.0")),
    ]);
    let parsed = parse_completeness_counts(&body);
    assert_eq!(parsed.total_employees, 0);
    assert!(parsed.trend.is_empty());
    assert!(parsed.departments.is_empty());
}

#[test]
fn parse_completeness_derives_total_missing_when_absent() {
    let body = obj(vec![
        ("departments", Json::Array(vec![])),
        ("total_employees", num(12)),
        ("total_with_ctc", num(9)),
        ("overall_completion_pct", float("75.0")),
    ]);
    let parsed = parse_completeness_counts(&body);
    assert_eq!(parsed.total_missing, 3);
}

#[test]
fn parse_completeness_derives_department_missing_when_absent() {
    let body = obj(vec![
        ("departments", Json::Array(vec![obj(vec![
            ("department_id", st("00000000-0000-0000-0000-000000000001")),
            ("department", st("Engineering")),
            ("total_employees", num(8)),
            ("with_ctc", num(5)),
            ("completion_pct", float("62.5")),
        ])])),
        ("total_employees", num(8)),
        ("total_with_ctc", num(5)),
        ("total_missing", num(3)),
        ("overall_completion_pct", float("62.5")),
    ]);
    let parsed = parse_completeness_counts(&body);
    assert_eq!(parsed.departments.len(), 1);
    assert_eq!(parsed.departments[0].missing_ctc, 3);
}

#[test]
fn parse_completeness_ignores_pre_story_6_5_field_names() {
    let body = obj(vec![
        ("departments", Json::Array(vec![])),
        ("total_employees", num(4)),
        ("total_with_ctc", num(3)),
        ("total_missing", num(1)),
        ("overall_completion_pct", float("75.0")),
        ("with_ctc", num(99)),
        ("missing_ctc", num(99)),
        ("completion_pct", float("99.0")),
    ]);
    let parsed = parse_completeness_counts(&body);
    assert_eq!(parsed.total_with_ctc, 3);
    assert_eq!(parsed.total_missing, 1);
}

#[test]
fn valid_resource_id_accepts_only_uuid_targets() {
    assert!(valid_resource_id("00000000-0000-0000-0000-000000000001"));
    assert!(!valid_resource_id(""));
    assert!(!valid_resource_id("not-a-resource-id"));
}

#[test]
fn parse_completeness_accepts_stringified_numeric_values() {
    let body = obj(vec![
        ("departments", Json::Array(vec![obj(vec![
            ("department_id", st("00000000-0000-0000-0000-000000000001")),
            ("department", st("Stringified")),
            ("total_employees", st("5")),
            ("with_ctc", st("3")),
            ("missing_ctc", st("2")),
            ("completion_pct", st("60.0")),
        ])])),
        ("total_employees", st("5")),
        ("total_with_ctc", st("3")),
        ("total_missing", st("2")),
        ("overall_completion_pct", st("60.0")),
        ("trend", Json::Array(vec![obj(vec![
            ("month", st("2026-05")),
            ("total_employees", st("5")),
            ("total_with_ctc", st("3")),
            ("total_missing", st("2")),
            ("completion_pct", st("60.0")),
        ])])),
    ]);
    let parsed = parse_completeness_counts(&body);
    assert_eq!(parsed.total_employees, 5);
    assert_eq!(parsed.total_with_ctc, 3);
    assert_eq!(parsed.total_missing, 2);
    assert_eq!(parsed.departments.len(), 1);
    assert_eq!(parsed.departments[0].total_employees, 5);
    assert_eq!(parsed.departments[0].with_ctc, 3);
    assert_eq!(parsed.trend.len(), 1);
    assert_eq!(parsed.trend[0].total_with_ctc, 3);
}

#[test]
fn parse_completeness_trend_with_zero_total_has_zero_percent_no_nan() {
    let body = obj(vec![
        ("departments", Json::Array(vec![])),
        ("total_employees", num(0)),
        ("total_with_ctc", num(0)),
        ("overall_completion_pct", float("0.0")),
        ("trend", Json::Array(vec![obj(vec![
            ("month", st("2026-05")),
            ("total_employees", num(0)),
            ("total_with_ctc", num(0)),
        ])])),
    ]);
    let parsed = parse_completeness_counts(&body);
    assert_eq!(parsed.trend.len(), 1);
    let bucket = &parsed.trend[0];
    assert_eq!(bucket.total_employees, 0);
    assert_eq!(bucket.total_with_ctc, 0);
    assert_eq!(bucket.total_missing, 0);
}

#[test]
fn derived_missing_count_never_goes_negative() {
    let body = obj(vec![
        ("total_employees", num(3)),
        ("total_with_ctc", num(5)),
        ("departments", Json::Array(vec![obj(vec![
            ("department", st("Ops")),
            ("total_employees", num(1)),
            ("with_ctc", num(4)),
        ])])),
    ]);
    let parsed = parse_completeness_counts(&body);
    assert_eq!(parsed.total_missing, 0);
    assert_eq!(parsed.departments[0].missing_ctc, 0);
    assert_eq!(parsed.departments[0].row_key, "name:Ops:0");
}

#[test]
fn non_numeric_counts_read_as_zero() {
    let body = obj(vec![
        ("total_employees", st("ten")),
        ("total_with_ctc", float("2.5")),
        ("total_missing", Json::Null),
    ]);
    let parsed = parse_completeness_counts(&body);
    assert_eq!(parsed.total_employees, 0);
    assert_eq!(parsed.total_with_ctc, 0);
    assert_eq!(parsed.total_missing, 0);
    assert!(parsed.departments.is_empty());
}
