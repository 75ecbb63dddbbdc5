use xynergy::json::{Json, JsonNumber, json_get, json_str, json_array, value_to_i64};
use xynergy::extract::{
    parse_missing_employees, parse_department_options, parse_resource_options, parse_uuid_name_options,
    parse_compliance_counts, parse_existing_ctc, get_i64, get_str_or_empty, get_opt_str,
};
use xynergy::audit::{CtcChangeLogRow, AssignmentHistoryRow, BudgetModificationRow, AccessLogRow, ReportRows};
use xynergy::report_cells::{
    ctc_change_log_cells, assignment_history_cells, budget_modification_cells, access_log_cells, report_table_cells,
};

fn num(v: i64) -> Json {
    Json::Number(JsonNumber { text: v.to_string(), as_i64: Some(v) })
}

fn st(v: &str) -> Json {
    Json::Str(v.to_string())
}

fn obj(members: Vec<(&str, Json)>) -> Json {
    Json::Object(members.into_iter().map(|(k, v)| (k.to_string(), v)).collect())
}

const U1: u128 = 0x3f2504e0_4f89_41d3_9a0c_0305e82c3301;
const U1_TEXT: &str = "3f2504e0-4f89-41d3-9a0c-0305e82c3301";

#[test]
fn json_accessors_read_members() {
    let v = obj(vec![("a", num(1)), ("b", st("x")), ("a", num(2)), ("c", Json::Array(vec![Json::Null]))]);
    assert!(matches!(json_get(&v, "a"), Some(Json::Number(n)) if n.as_i64 == Some(1)));
    assert!(json_get(&v, "z").is_none());
    assert!(json_get(&num(1), "a").is_none());
    assert_eq!(json_str(&st("x")).map(|s| s.as_str()), Some("x"));
    assert!(json_array(&v).is_none());
    assert_eq!(json_array(&Json::Array(vec![Json::Null])).map(|a| a.len()), Some(1));
    assert_eq!(value_to_i64(&st("-42")), Some(-42));
    assert_eq!(value_to_i64(&st("4.2")), None);
    assert_eq!(value_to_i64(&Json::Bool(true)), None);
    assert_eq!(get_i64(&v, "a"), Some(1));
    assert_eq!(get_str_or_empty(&v, "missing"), "");
    assert_eq!(get_opt_str(&v, "b"), Some("x".to_string()));
}

#[test]
fn missing_employees_from_array_or_member() {
    let e = obj(vec![("id", st("e1")), ("name", st("Ana")), ("department", st("Ops"))]);
    let direct = parse_missing_employees(&Json::Array(vec![e]));
    assert_eq!(direct.len(), 1);
    assert_eq!(direct[0].name, "Ana");
    let wrapped = parse_missing_employees(&obj(vec![("missing_employees", Json::Array(vec![obj(vec![("name", st("Bo"))])]))]));
    assert_eq!(wrapped.len(), 1);
    assert_eq!(wrapped[0].id, "");
    assert_eq!(wrapped[0].name, "Bo");
    assert!(parse_missing_employees(&st("nope")).is_empty());
}

#[test]
fn picker_options_keep_complete_entries() {
    let values = vec![
        obj(vec![("id", st(U1_TEXT)), ("name", st("Engineering")), ("department_id", st("d1"))]),
        obj(vec![("id", num(5)), ("name", st("Broken"))]),
        obj(vec![("id", st("not-uuid")), ("name", st("Loose"))]),
    ];
    assert_eq!(
        parse_department_options(&values),
        vec![(U1_TEXT.to_string(), "Engineering".to_string()), ("not-uuid".to_string(), "Loose".to_string())]
    );
    let resources = parse_resource_options(&values);
    assert_eq!(resources.len(), 2);
    assert_eq!(resources[0].department_id, Some("d1".to_string()));
    assert_eq!(resources[1].department_id, None);
    assert_eq!(parse_uuid_name_options(&values), vec![(U1, "Engineering".to_string())]);
}

#[test]
fn compliance_counts_default_to_zero() {
    let body = obj(vec![
        ("total_validated", num(3)),
        ("passed", st("2")),
        ("results", Json::Array(vec![obj(vec![
            ("resource_id", st("r1")),
            ("name", st("Dana")),
            ("stored_bpjs_kes", num(100)),
            ("expected_bpjs_kes", num(120)),
            ("risk_tier", num(2)),
            ("status", st("DISCREPANCY")),
            ("variance_amount", num(-20)),
        ])])),
    ]);
    let c = parse_compliance_counts(&body);
    assert_eq!((c.total_validated, c.passed, c.discrepancies), (3, 2, 0));
    assert_eq!(c.rows.len(), 1);
    assert_eq!(c.rows[0].expected_bpjs_kes, 120);
    assert_eq!(c.rows[0].stored_bpjs_kt, 0);
    assert_eq!(c.rows[0].variance_amount, -20);
    assert_eq!(c.rows[0].status, "DISCREPANCY");
}

#[test]
fn existing_ctc_needs_a_base_salary() {
    let body = obj(vec![("components", obj(vec![("base_salary", num(9_000_000)), ("meal_allowance", st("50000"))]))]);
    let v = parse_existing_ctc(&body).unwrap();
    assert_eq!(v.base_salary, 9_000_000);
    assert_eq!(v.meal_allowance, 50_000);
    assert_eq!(v.hra_allowance, 0);
    assert!(parse_existing_ctc(&obj(vec![("components", obj(vec![("hra_allowance", num(1))]))])).is_none());
    assert!(parse_existing_ctc(&obj(vec![])).is_none());
}

fn change_row() -> CtcChangeLogRow {
    CtcChangeLogRow {
        revision_id: 3,
        revision_number: 7,
        change_date: "2026-05-21T10:15:00.123Z".to_string(),
        employee_id: U1,
        employee_name: "Alice".to_string(),
        changed_by_id: 0,
        changed_by_name: None,
        field: "base_salary".to_string(),
        old_value: num(100),
        new_value: Json::Null,
        reason: "Raise".to_string(),
    }
}

#[test]
fn ctc_change_log_cells_show_each_column() {
    let cells = ctc_change_log_cells(&change_row());
    assert_eq!(
        cells,
        vec![
            "Alice".to_string(),
            U1_TEXT.to_string(),
            "Unknown".to_string(),
            uuid_text(0),
            "2026-05-21T10:15:00Z".to_string(),
            "rev 7".to_string(),
            "base_salary".to_string(),
            "00000000-0000-0000-0000-000000000003".to_string(),
            "100".to_string(),
            "—".to_string(),
            "Raise".to_string(),
        ]
    );
}

#[test]
fn history_and_budget_cells_use_placeholders() {
    let a = AssignmentHistoryRow {
        audit_id: U1,
        timestamp: "2026-05-21T10:15:00Z".to_string(),
        user_id: None,
        user_name: Some("Ops".to_string()),
        action: "update".to_string(),
        allocation_id: Some(U1),
        resource_id: None,
        resource_name: None,
        project_id: None,
        project_name: Some("Atlas".to_string()),
        before_summary: "40%".to_string(),
        after_summary: "60%".to_string(),
    };
    let cells = assignment_history_cells(&a);
    assert_eq!(cells[2], "Ops");
    assert_eq!(cells[3], "");
    assert_eq!(cells[5], U1_TEXT);
    assert_eq!(cells[6], "—");
    assert_eq!(cells[8], "Atlas");
    assert_eq!(cells.len(), 12);
    let b = BudgetModificationRow {
        audit_id: U1,
        timestamp: "t".to_string(),
        user_id: Some(U1),
        user_name: None,
        action: "raise".to_string(),
        project_id: None,
        project_name: None,
        before_summary: "1".to_string(),
        after_summary: "2".to_string(),
    };
    let cells = budget_modification_cells(&b);
    assert_eq!(cells, vec!["t", U1_TEXT, "Unknown", U1_TEXT, "raise", "—", "", "1", "2"]);
}

#[test]
fn access_log_cells_show_status() {
    let mut row = AccessLogRow {
        audit_id: U1,
        timestamp: "t".to_string(),
        user_id: None,
        user_name: None,
        action: "login".to_string(),
        resource_type: "session".to_string(),
        resource_id: None,
        success: false,
        reason: Some("locked".to_string()),
    };
    let cells = access_log_cells(&row);
    assert_eq!(&cells[7..], &["text-negative-default".to_string(), "Failure".to_string(), "locked".to_string()]);
    row.success = true;
    row.reason = None;
    let cells = access_log_cells(&row);
    assert_eq!(&cells[7..], &["text-positive-default".to_string(), "Success".to_string(), String::new()]);
    let table = report_table_cells(&ReportRows::AccessLogs(vec![row]));
    assert_eq!(table.len(), 1);
    assert_eq!(table[0][8], "Success");
    assert_eq!(report_table_cells(&ReportRows::CtcChangeLog(vec![change_row(), change_row()])).len(), 2);

}

fn uuid_text(u: u128) -> String {
    uuid::Uuid::from_u128(u).to_string()
}
