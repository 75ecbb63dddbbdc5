use xynergy::access::{completeness_access, completeness_page_gate, cash_flow_page_gate, CompletenessAccess, PageGate};
use xynergy::forms::{
    parse_whole_number, parse_i32_str, CtcFormInput, ctc_form_payload, cash_flow_entry_payload,
    category_for_type, can_access_cash_flow, cash_flow_range_error, timeline_base_id, allocation_form_ids,
    amount_tone_class, chart_max_abs,
};
use xynergy::requests::{
    required_uuid, optional_uuid, record_path, failure_message, dashboard_fetch_error, role_dashboard_url,
    completeness_url, missing_employees_url, compliance_report_url, cash_flow_entries_url,
    cash_flow_dashboard_url, is_changed, any_changed, default_health_status, department_payload,
};

const ID_TEXT: &str = "3f2504e0-4f89-41d3-9a0c-0305e82c3301";
const ID: u128 = 0x3f2504e0_4f89_41d3_9a0c_0305e82c3301;

fn ctc_input(base: &str) -> CtcFormInput {
    CtcFormInput {
        resource_id: ID_TEXT.to_string(),
        base_salary: base.to_string(),
        hra_allowance: "1000000".to_string(),
        medical_allowance: "0".to_string(),
        transport_allowance: "250000".to_string(),
        meal_allowance: "150000".to_string(),
        risk_tier: "2".to_string(),
        working_days: "".to_string(),
    }
}

#[test]
fn whole_numbers_reject_decimals_text_and_negatives() {
    assert_eq!(parse_whole_number("Base salary", "15000000"), Ok(15_000_000));
    assert_eq!(parse_whole_number("Base salary", "0"), Ok(0));
    assert_eq!(parse_whole_number("Base salary", "1.5"), Err("Base salary must be a whole number (IDR)".to_string()));
    assert_eq!(parse_whole_number("HRA allowance", "abc"), Err("HRA allowance must be a valid number".to_string()));
    assert_eq!(parse_whole_number("HRA allowance", ""), Err("HRA allowance must be a valid number".to_string()));
    assert_eq!(parse_whole_number("Meal allowance", "-5"), Err("Meal allowance must be non-negative".to_string()));
    assert_eq!(parse_whole_number("X", "+7"), Ok(7));
}

#[test]
fn i32_parsing_follows_std() {
    assert_eq!(parse_i32_str("22"), Some(22));
    assert_eq!(parse_i32_str("-3"), Some(-3));
    assert_eq!(parse_i32_str("2147483648"), None);
    assert_eq!(parse_i32_str("x"), None);
    assert_eq!(parse_i32_str(""), None);
}

#[test]
fn ctc_form_builds_payload_with_defaults() {
    let p = ctc_form_payload(&ctc_input("15000000")).unwrap();
    assert_eq!(p.resource_id, ID_TEXT);
    assert_eq!(p.base_salary, 15_000_000);
    assert_eq!(p.hra_allowance, 1_000_000);
    assert_eq!(p.medical_allowance, 0);
    assert_eq!(p.transport_allowance, 250_000);
    assert_eq!(p.meal_allowance, 150_000);
    assert_eq!(p.working_days_per_month, 22);
    assert_eq!(p.risk_tier, 2);
}

#[test]
fn ctc_form_reports_first_failing_check() {
    let mut missing = ctc_input("15000000");
    missing.resource_id = String::new();
    assert_eq!(ctc_form_payload(&missing).err(), Some("Employee selection is required".to_string()));
    assert_eq!(ctc_form_payload(&ctc_input("0")).err(), Some("Base salary must be positive".to_string()));
    assert_eq!(ctc_form_payload(&ctc_input("1.5")).err(), Some("Base salary must be a whole number (IDR)".to_string()));
    let mut bad_meal = ctc_input("100");
    bad_meal.meal_allowance = "-1".to_string();
    bad_meal.hra_allowance = "x".to_string();
    assert_eq!(ctc_form_payload(&bad_meal).err(), Some("HRA allowance must be a valid number".to_string()));
}

#[test]
fn cash_flow_entry_checks_amount_description_and_project() {
    let ok = cash_flow_entry_payload(
        "cash_in".to_string(), "client_payment".to_string(), " 2500000 ", "2026-05-01".to_string(),
        "Invoice 12".to_string(), ID_TEXT,
    ).unwrap();
    assert_eq!(ok.amount_idr, 2_500_000);
    assert_eq!(ok.project_id, Some(ID));
    assert_eq!(ok.description, "Invoice 12");
    let no_project = cash_flow_entry_payload(
        "cash_out".to_string(), "tax".to_string(), "10", "2026-05-01".to_string(), "VAT".to_string(), "",
    ).unwrap();
    assert_eq!(no_project.project_id, None);
    let zero = cash_flow_entry_payload(
        "cash_out".to_string(), "tax".to_string(), "0", "2026-05-01".to_string(), "VAT".to_string(), "",
    );
    assert_eq!(zero.err(), Some("Amount must be a positive integer".to_string()));
    let blank = cash_flow_entry_payload(
        "cash_out".to_string(), "tax".to_string(), "5", "2026-05-01".to_string(), "   ".to_string(), "",
    );
    assert_eq!(blank.err(), Some("Description is required".to_string()));
    let bad_project = cash_flow_entry_payload(
        "cash_out".to_string(), "tax".to_string(), "5", "2026-05-01".to_string(), "VAT".to_string(), "nope",
    );
    assert_eq!(bad_project.err(), Some("Invalid project selection".to_string()));
}

#[test]
fn category_follows_entry_type() {
    assert_eq!(category_for_type("cash_out", "tax"), "tax");
    assert_eq!(category_for_type("cash_out", "client_payment"), "payroll");
    assert_eq!(category_for_type("cash_in", "payroll"), "client_payment");
    assert_eq!(category_for_type("cash_in", "interest"), "interest");
}

#[test]
fn cash_flow_access_and_range() {
    assert!(can_access_cash_flow("finance"));
    assert!(can_access_cash_flow("admin"));
    assert!(!can_access_cash_flow("hr"));
    assert_eq!(cash_flow_range_error(" ", "2026-12-31"), Some("Start date and end date are required".to_string()));
    assert_eq!(cash_flow_range_error("2026-01-01", "2026-12-31"), None);
}

#[test]
fn amount_tone_and_chart_scale() {
    assert_eq!(amount_tone_class(0), "text-positive-default");
    assert_eq!(amount_tone_class(-1), "text-negative-default");
    assert_eq!(chart_max_abs(&vec![]), 1);
    assert_eq!(chart_max_abs(&vec![0, 0]), 1);
    assert_eq!(chart_max_abs(&vec![5, -12, 7]), 12);
}

#[test]
fn timeline_item_ids_resolve_to_allocation_uuid() {
    assert_eq!(timeline_base_id(ID_TEXT), Ok(ID));
    assert_eq!(timeline_base_id(&format!("{}-3", ID_TEXT)), Ok(ID));
    assert_eq!(timeline_base_id("holiday-x"), Err("Invalid allocation ID".to_string()));
}

#[test]
fn allocation_form_ids_report_which_is_invalid() {
    assert_eq!(allocation_form_ids(ID_TEXT, ID_TEXT), Ok((ID, ID)));
    assert_eq!(allocation_form_ids("x", "y"), Err("Invalid resource ID".to_string()));
    assert_eq!(allocation_form_ids(ID_TEXT, "y"), Err("Invalid project ID".to_string()));
}

#[test]
fn uuid_inputs_and_paths() {
    assert_eq!(required_uuid(ID_TEXT, "Invalid department ID"), Ok(ID));
    assert_eq!(required_uuid("nope", "Invalid department ID"), Err("Invalid department ID".to_string()));
    assert_eq!(optional_uuid("", "Invalid head ID"), Ok(None));
    assert_eq!(optional_uuid(ID_TEXT, "Invalid head ID"), Ok(Some(ID)));
    assert_eq!(optional_uuid("x", "Invalid head ID"), Err("Invalid head ID".to_string()));
    assert_eq!(record_path("/api/v1/departments", ID), format!("/api/v1/departments/{}", ID_TEXT));
    assert_eq!(uuid_text(ID), ID_TEXT);
}

#[test]
fn department_payload_parses_optional_head() {
    let none = department_payload("Engineering", "").unwrap();
    assert_eq!(none.name, "Engineering");
    assert_eq!(none.head_id, None);
    let some = department_payload("Engineering", ID_TEXT).unwrap();
    assert_eq!(some.head_id, Some(ID));
    assert_eq!(department_payload("Engineering", "bad").err(), Some("Invalid head ID".to_string()));
}

#[test]
fn messages_and_urls() {
    assert_eq!(failure_message("Failed to delete holiday", "Not Found"), "Failed to delete holiday: Not Found");
    assert_eq!(dashboard_fetch_error("SESSION_EXPIRED"), "SESSION_EXPIRED");
    assert_eq!(dashboard_fetch_error("timeout"), "Failed to fetch dashboard: timeout");
    assert_eq!(role_dashboard_url(&None), "/api/v1/dashboard");
    assert_eq!(
        role_dashboard_url(&Some(("2026-05-22".to_string(), "2026-06-21".to_string()))),
        "/api/v1/dashboard?team_start_date=2026-05-22&team_end_date=2026-06-21"
    );
    assert_eq!(completeness_url(None), "/api/v1/ctc/completeness");
    assert_eq!(completeness_url(Some("")), "/api/v1/ctc/completeness");
    assert_eq!(completeness_url(Some("d1")), "/api/v1/ctc/completeness?department_id=d1");
    assert_eq!(missing_employees_url(Some("d1")), "/api/v1/ctc/completeness/missing?department_id=d1");
    assert_eq!(
        compliance_report_url("2026-05-01", "2026-05-31"),
        "/api/v1/ctc/compliance-report?start_date=2026-05-01&end_date=2026-05-31"
    );
    assert_eq!(cash_flow_entries_url(Some("p")), "/api/v1/cash-flow/entries?project_id=p");
    assert_eq!(cash_flow_entries_url(Some("")), "/api/v1/cash-flow/entries");
    assert_eq!(
        cash_flow_dashboard_url("2026-01-01", "2026-12-31", Some("p")),
        "/api/v1/cash-flow/dashboard?start_date=2026-01-01&end_date=2026-12-31&project_id=p"
    );
    assert_eq!(
        cash_flow_dashboard_url("2026-01-01", "2026-12-31", None),
        "/api/v1/cash-flow/dashboard?start_date=2026-01-01&end_date=2026-12-31"
    );
}

#[test]
fn changed_key_lookups() {
    let changed = vec!["a.b".to_string(), "c".to_string()];
    assert!(is_changed(&changed, "c"));
    assert!(!is_changed(&changed, "a"));
    assert!(any_changed(&changed, &vec!["x".to_string(), "a.b".to_string()]));
    assert!(!any_changed(&changed, &vec![]));
    assert_eq!(default_health_status(), "unconfigured");

}

fn uuid_text(u: u128) -> String {
    uuid::Uuid::from_u128(u).to_string()
}

#[test]
fn completeness_sections_follow_the_role() {
    assert_eq!(
        completeness_access("hr"),
        CompletenessAccess { page_authorized: true, completeness_visible: true, missing_list_enabled: true, department_filter_visible: true, compliance_visible: true }
    );
    assert_eq!(
        completeness_access("department_head"),
        CompletenessAccess { page_authorized: true, completeness_visible: true, missing_list_enabled: false, department_filter_visible: false, compliance_visible: false }
    );
    assert_eq!(
        completeness_access("finance"),
        CompletenessAccess { page_authorized: true, completeness_visible: false, missing_list_enabled: false, department_filter_visible: false, compliance_visible: true }
    );
    assert_eq!(
        completeness_access("project_manager"),
        CompletenessAccess { page_authorized: false, completeness_visible: false, missing_list_enabled: false, department_filter_visible: false, compliance_visible: false }
    );
}

#[test]
fn completeness_page_redirects_by_session() {
    assert_eq!(completeness_page_gate(false, Some("hr")), PageGate::RedirectLogin);
    assert_eq!(completeness_page_gate(true, None), PageGate::CheckToken);
    assert_eq!(completeness_page_gate(true, Some("finance")), PageGate::Show);
    assert_eq!(completeness_page_gate(true, Some("admin")), PageGate::RedirectDashboard);
}

#[test]
fn cash_flow_page_is_for_finance_and_admin() {
    assert_eq!(cash_flow_page_gate(false, "finance"), PageGate::RedirectLogin);
    assert_eq!(cash_flow_page_gate(true, "finance"), PageGate::Show);
    assert_eq!(cash_flow_page_gate(true, "admin"), PageGate::Show);
    assert_eq!(cash_flow_page_gate(true, "hr"), PageGate::Denied);
    assert_eq!(cash_flow_page_gate(true, ""), PageGate::Denied);
}
