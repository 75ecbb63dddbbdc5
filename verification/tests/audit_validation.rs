use xynergy::audit::{
    ReportType, ReportFilters, ApiErrorEnvelope, ApiErrorBody, envelope_message_text, audit_error_message,
    parsed_filter_dates, is_interactive_range, validate_filters, export_request_payload, audit_report_url,
    ReportRows, AccessLogRow,
};
use xynergy::validation::{report_filters, validate_report_filters, validation_error_message, validation_report_url};
use xynergy::ids::normalize_sample_employee_ids;

const USER: &str = "3f2504e0-4f89-41d3-9a0c-0305e82c3301";

fn filters(report_type: &str, start: &str, end: &str, user: &str, action: &str) -> ReportFilters {
    ReportFilters {
        report_type: report_type.to_string(),
        start_date: start.to_string(),
        end_date: end.to_string(),
        user_id: user.to_string(),
        action_type: action.to_string(),
    }
}

fn env(nested: Option<&str>, top: Option<&str>) -> Option<ApiErrorEnvelope> {
    Some(ApiErrorEnvelope {
        error: Some(ApiErrorBody { message: nested.map(|m| m.to_string()) }),
        message: top.map(|m| m.to_string()),
    })
}

#[test]
fn report_types_round_trip_their_tokens() {
    for t in [ReportType::CtcChangeLog, ReportType::AssignmentHistory, ReportType::BudgetModifications, ReportType::AccessLogs] {
        assert_eq!(ReportType::from_str(t.as_str()), Some(t));
    }
    assert_eq!(ReportType::from_str("ctc_change_log"), Some(ReportType::CtcChangeLog));
    assert_eq!(ReportType::from_str("CTC_CHANGE_LOG"), None);
    assert_eq!(ReportType::AccessLogs.label(), "Access Logs");
    assert_eq!(ReportType::label_for("budget_modifications"), "Budget Modifications");
    assert_eq!(ReportType::label_for("nope"), "Unknown Report");
    assert!(ReportType::AccessLogs.supports_user_action_filters());
    assert!(!ReportType::CtcChangeLog.supports_user_action_filters());
}

#[test]
fn error_messages_prefer_nested_then_top_level() {
    assert_eq!(envelope_message_text(&env(Some("  nested  "), Some("top"))), Some("nested".to_string()));
    assert_eq!(envelope_message_text(&env(None, Some(" top "))), Some("top".to_string()));
    assert_eq!(envelope_message_text(&env(Some("   "), Some("top"))), None);
    assert_eq!(envelope_message_text(&None), None);
    assert_eq!(
        audit_error_message(400, &env(Some("Bad range"), None)),
        "Audit report request failed (400): Bad range"
    );
    assert_eq!(
        audit_error_message(500, &None),
        "Audit report request failed (500): The audit report could not be loaded. Check the selected filters and try again."
    );
}

#[test]
fn filter_dates_are_checked_in_order() {
    assert_eq!(parsed_filter_dates(&filters("access_logs", "", "2026-01-01", "", "")).err(), Some("Start date and end date are required".to_string()));
    assert_eq!(parsed_filter_dates(&filters("access_logs", "2026/01/01", "2026-01-02", "", "")).err(), Some("Start date must use YYYY-MM-DD".to_string()));
    assert_eq!(parsed_filter_dates(&filters("access_logs", "2026-01-01", "Jan 2", "", "")).err(), Some("End date must use YYYY-MM-DD".to_string()));
    assert_eq!(parsed_filter_dates(&filters("access_logs", "2026-02-01", "2026-01-31", "", "")).err(), Some("End date must be greater than or equal to start date".to_string()));
    let (s, e) = parsed_filter_dates(&filters("access_logs", "2026-01-01", "2026-01-31", "", "")).unwrap();
    assert_eq!(e - s, 30);
}

#[test]
fn interactive_range_is_ninety_days_inclusive() {
    assert!(is_interactive_range(&filters("access_logs", "2026-01-01", "2026-03-31", "", "")));
    assert!(!is_interactive_range(&filters("access_logs", "2026-01-01", "2026-04-01", "", "")));
    assert!(!is_interactive_range(&filters("access_logs", "2026-01-02", "2026-01-01", "", "")));
}

#[test]
fn validate_filters_reports_each_error() {
    assert_eq!(validate_filters(&filters("bogus", "2026-01-01", "2026-01-02", "", ""), true).err(), Some("Report type is not supported".to_string()));
    assert_eq!(
        validate_filters(&filters("access_logs", "2026-01-01", "2026-06-30", "", ""), true).err(),
        Some("Audit report preview is limited to 90 days. Narrow the date range or request an export for the wider window.".to_string())
    );
    assert_eq!(validate_filters(&filters("access_logs", "2026-01-01", "2026-06-30", "", ""), false), Ok(()));
    assert_eq!(validate_filters(&filters("access_logs", "2026-01-01", "2026-01-02", "abc", ""), false).err(), Some("User ID must be a valid UUID".to_string()));
    assert_eq!(validate_filters(&filters("access_logs", "2026-01-01", "2026-01-02", USER, "login"), true), Ok(()));
}

#[test]
fn export_payload_keeps_only_given_filters() {
    let p = export_request_payload(&filters("access_logs", "2026-01-01", "2026-01-31", USER, ""), Some("2026-02-01T00:00:00Z".to_string()));
    assert_eq!(p.report_type, "access_logs");
    assert_eq!(p.user_id, Some(0x3f2504e0_4f89_41d3_9a0c_0305e82c3301));
    assert_eq!(p.action_type, None);
    assert_eq!(p.snapshot_at, Some("2026-02-01T00:00:00Z".to_string()));
    let q = export_request_payload(&filters("access_logs", "2026-01-01", "2026-01-31", "", "login_failed"), None);
    assert_eq!(q.user_id, None);
    assert_eq!(q.action_type, Some("login_failed".to_string()));
}

#[test]
fn audit_report_url_lists_filters() {
    let f = filters("access_logs", "2026-01-01", "2026-01-31", USER, "login failed");
    assert_eq!(
        audit_report_url(&f, 200, "login%20failed", Some("2026-02-01T00%3A00%3A00Z")),
        format!("/api/v1/audit-logs/reports?report_type=access_logs&start_date=2026-01-01&end_date=2026-01-31&limit=100&offset=200&user_id={}&action_type=login%20failed&snapshot_at=2026-02-01T00%3A00%3A00Z", USER)
    );
    let g = filters("ctc_change_log", "2026-01-01", "2026-01-31", "", "");
    assert_eq!(
        audit_report_url(&g, 0, "", None),
        "/api/v1/audit-logs/reports?report_type=ctc_change_log&start_date=2026-01-01&end_date=2026-01-31&limit=100&offset=0"
    );
}

#[test]
fn report_rows_count_whatever_the_report() {
    let row = AccessLogRow {
        audit_id: 1,
        timestamp: "2026-01-01T00:00:00Z".to_string(),
        user_id: None,
        user_name: None,
        action: "login".to_string(),
        resource_type: "session".to_string(),
        resource_id: None,
        success: true,
        reason: None,
    };
    assert_eq!(ReportRows::AccessLogs(vec![row]).len(), 1);
    assert_eq!(ReportRows::CtcChangeLog(vec![]).len(), 0);
}

#[test]
fn validation_filters_trim_dates_and_check_order() {
    let f = report_filters(" 2026-05-01 ".to_string(), "2026-05-31\n".to_string(), " a ".to_string());
    assert_eq!(f.start_date, "2026-05-01");
    assert_eq!(f.end_date, "2026-05-31");
    assert_eq!(f.sample_employee_ids, " a ");
    assert_eq!(validate_report_filters(&f), Ok(()));
    let empty = report_filters("  ".to_string(), "2026-05-31".to_string(), String::new());
    assert_eq!(validate_report_filters(&empty).err(), Some("Start date and end date are required".to_string()));
    let reversed = report_filters("2026-06-01".to_string(), "2026-05-31".to_string(), String::new());
    assert_eq!(validate_report_filters(&reversed).err(), Some("End date must be greater than or equal to start date".to_string()));
}

#[test]
fn validation_error_message_falls_back_to_plain_text() {
    assert_eq!(
        validation_error_message(422, &env(Some("Window too wide"), None), "{}"),
        "Failed to fetch validation report (422): Window too wide"
    );
    assert_eq!(
        validation_error_message(502, &None, "  Bad Gateway "),
        "Failed to fetch validation report (502): Bad Gateway"
    );
    assert_eq!(
        validation_error_message(500, &None, "{\"unexpected\":true}"),
        "Failed to fetch validation report (500): The validation report could not be loaded. Check the selected filters and try again."
    );
}

#[test]
fn validation_report_url_lists_page_and_sample() {
    assert_eq!(
        validation_report_url("2026-05-01", "2026-05-31", 100, 0, None),
        "/api/v1/ctc/validation-report?start_date=2026-05-01&end_date=2026-05-31&limit=100&offset=0"
    );
    assert_eq!(
        validation_report_url("2026-05-01", "2026-05-31", 100, 200, Some("a%2Cb")),
        "/api/v1/ctc/validation-report?start_date=2026-05-01&end_date=2026-05-31&limit=100&offset=200&employee_ids=a%2Cb"
    );
}

#[test]
fn sample_ids_are_normalized_deduplicated_and_checked() {
    assert_eq!(normalize_sample_employee_ids(""), Ok(None));
    assert_eq!(normalize_sample_employee_ids(" , ,"), Ok(None));
    let upper = "3F2504E0-4F89-41D3-9A0C-0305E82C3301";
    assert_eq!(
        normalize_sample_employee_ids(&format!(" {} ,{}, {}", USER, upper, "9b2d6c1e7a444c0e8f1d2b7c5e9a1f02")),
        Ok(Some(format!("{},9b2d6c1e-7a44-4c0e-8f1d-2b7c5e9a1f02", USER)))
    );
    assert_eq!(
        normalize_sample_employee_ids("abc, def"),
        Err("Invalid employee ID UUID: abc".to_string())
    );
}

#[test]
fn sample_ids_are_capped() {
    let ids: Vec<String> = (0..201u32).map(|i| format!("00000000-0000-0000-0000-{:012x}", i)).collect();
    assert_eq!(
        normalize_sample_employee_ids(&ids.join(",")),
        Err("Employee sample may contain at most 200 distinct IDs".to_string())
    );
    let mut ok_ids = ids.clone();
    ok_ids.truncate(200);
    ok_ids.push(ok_ids[0].clone());
    let normalized = normalize_sample_employee_ids(&ok_ids.join(",")).unwrap().unwrap();
    assert_eq!(normalized.split(',').count(), 200);
}

#[test]
fn capped_filters_that_pass_fit_the_preview() {
    for (start, end) in [("2026-01-01", "2026-03-31"), ("2026-01-01", "2026-01-01"), ("2026-01-01", "2026-04-01")] {
        let f = filters("access_logs", start, end, "", "");
        if validate_filters(&f, true).is_ok() {
            assert!(is_interactive_range(&f));
        } else {
            assert!(!is_interactive_range(&f));
        }
    }
}
