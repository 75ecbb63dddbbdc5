use xynergy::numbers::format_idr;
use xynergy::display::{format_date, format_datetime, format_timestamp, value_preview, json_preview, pretty_value, plain_text_preview};
use xynergy::labels::{
    role_display, budget_badge_class, budget_badge_label, health_status_class, health_status_label,
    budget_health_class, budget_health_label, category_label, category_options, titleize_token, humanize,
    field_label, status_label, PmSortMode,
};
use xynergy::dates::TrendRangePreset;
use xynergy::json::{Json, JsonNumber, push_json_preview};

fn num(v: i64) -> Json {
    Json::Number(JsonNumber { text: v.to_string(), as_i64: Some(v) })
}

fn st(v: &str) -> Json {
    Json::Str(v.to_string())
}

#[test]
fn format_idr_handles_zero() {
    assert_eq!(format_idr(0), "Rp 0");
}

#[test]
fn format_idr_groups_thousands_with_dots() {
    assert_eq!(format_idr(1_000), "Rp 1.000");
    assert_eq!(format_idr(1_000_000), "Rp 1.000.000");
    assert_eq!(format_idr(1_000_000_000), "Rp 1.000.000.000");
}

#[test]
fn format_idr_handles_negative_amount() {
    assert_eq!(format_idr(-50_000), "Rp -50.000");
    assert_eq!(format_idr(-1), "Rp -1");
}

#[test]
fn format_idr_handles_extremes() {
    assert_eq!(format_idr(999), "Rp 999");
    assert_eq!(format_idr(12_345), "Rp 12.345");
    assert_eq!(format_idr(i64::MAX), "Rp 9.223.372.036.854.775.807");
    assert_eq!(format_idr(i64::MIN), "Rp -9.223.372.036.854.775.808");
}

#[test]
fn format_date_strips_iso_time_component() {
    assert_eq!(format_date("2026-05-21T10:15:00Z"), "2026-05-21");
    assert_eq!(format_date("2026-05-21"), "2026-05-21");
    assert_eq!(format_date(""), "");
}

#[test]
fn format_datetime_drops_fraction_and_separator() {
    assert_eq!(format_datetime("2026-05-21T10:15:00.123Z"), "2026-05-21 10:15:00");
    assert_eq!(format_datetime("2026-05-21T10:15:00Z"), "2026-05-21 10:15:00Z");
}

#[test]
fn format_timestamp_trims_fractional_seconds() {
    assert_eq!(format_timestamp("2026-05-21T10:15:00.123456Z"), "2026-05-21T10:15:00Z");
    assert_eq!(format_timestamp("2026-05-21T10:15:00.5+07:00"), "2026-05-21T10:15:00+07:00");
    assert_eq!(format_timestamp("2026-05-21T10:15:00.5"), "2026-05-21T10:15:00");
    assert_eq!(format_timestamp("2026-05-21T10:15:00Z"), "2026-05-21T10:15:00Z");
}

#[test]
fn role_display_returns_canonical_labels() {
    assert_eq!(role_display("hr"), "HR");
    assert_eq!(role_display("department_head"), "Department Head");
    assert_eq!(role_display("project_manager"), "Project Manager");
    assert_eq!(role_display("finance"), "Finance");
    assert_eq!(role_display("admin"), "Administrator");
    assert_eq!(role_display("director"), "User");
    assert_eq!(role_display(""), "User");
}

#[test]
fn budget_badge_class_returns_badge_negative_when_over_budget() {
    assert_eq!(budget_badge_class("healthy", true), "badge-negative");
    assert_eq!(budget_badge_class("warning", true), "badge-negative");
    assert_eq!(budget_badge_class("critical", true), "badge-negative");
    assert_eq!(budget_badge_class("unconfigured", true), "badge-negative");
}

#[test]
fn budget_badge_class_maps_budget_status_tokens() {
    assert_eq!(budget_badge_class("healthy", false), "badge-positive");
    assert_eq!(budget_badge_class("warning", false), "badge-warning");
    assert_eq!(budget_badge_class("critical", false), "badge-negative");
    assert_eq!(budget_badge_class("unconfigured", false), "badge-neutral");
    assert_eq!(budget_badge_class("garbage", false), "badge-neutral");
}

#[test]
fn budget_badge_label_returns_human_readable_labels() {
    assert_eq!(budget_badge_label("healthy", true), "Over budget");
    assert_eq!(budget_badge_label("healthy", false), "On track");
    assert_eq!(budget_badge_label("warning", false), "Watch");
    assert_eq!(budget_badge_label("critical", false), "At risk");
    assert_eq!(budget_badge_label("unconfigured", false), "Unconfigured");
    assert_eq!(budget_badge_label("anything-else", false), "Unconfigured");
    assert_eq!(health_status_class("healthy"), "text-positive-default");
    assert_eq!(health_status_class("warning"), "text-warning-default");
    assert_eq!(health_status_class("critical"), "text-negative-default");
    assert_eq!(health_status_class("unconfigured"), "text-huly-muted");
    assert_eq!(health_status_label("healthy"), "Healthy");
    assert_eq!(health_status_label("warning"), "Watch");
    assert_eq!(health_status_label("critical"), "At risk");
    assert_eq!(health_status_label("unconfigured"), "Unconfigured");
}

#[test]
fn budget_health_class_and_label_branches() {
    assert_eq!(budget_health_class("critical"), "text-negative-default");
    assert_eq!(budget_health_class("warning"), "text-warning-default");
    assert_eq!(budget_health_class("healthy"), "text-positive-default");
    assert_eq!(budget_health_class("unknown"), "text-huly-muted");
    assert_eq!(budget_health_label("critical"), "At risk");
    assert_eq!(budget_health_label("warning"), "Watch");
    assert_eq!(budget_health_label("healthy"), "On track");
    assert_eq!(budget_health_label("bogus"), "Unconfigured");
}

#[test]
fn trend_range_preset_labels_stable() {
    assert_eq!(TrendRangePreset::CurrentMonth.label(), "Current Month");
    assert_eq!(TrendRangePreset::Next30Days.label(), "Next 30 Days");
    assert_eq!(TrendRangePreset::ThreeMonths.label(), "3 Months");
    assert_eq!(TrendRangePreset::SixMonths.label(), "6 Months");
}

#[test]
fn trend_range_preset_uses_utc_calendar_date_boundaries() {
    assert_eq!(
        TrendRangePreset::CurrentMonth.resolve_from_date(2026, 5, 22),
        ("2026-05-01".to_string(), "2026-05-31".to_string())
    );
    assert_eq!(
        TrendRangePreset::Next30Days.resolve_from_date(2026, 5, 22),
        ("2026-05-22".to_string(), "2026-06-21".to_string())
    );
    assert_eq!(
        TrendRangePreset::ThreeMonths.resolve_from_date(2026, 5, 22),
        ("2026-05-22".to_string(), "2026-08-20".to_string())
    );
    assert_eq!(
        TrendRangePreset::SixMonths.resolve_from_date(2026, 5, 22),
        ("2026-05-22".to_string(), "2026-11-18".to_string())
    );
}

#[test]
fn trend_range_current_month_handles_year_boundary() {
    assert_eq!(
        TrendRangePreset::CurrentMonth.resolve_from_date(2026, 12, 22),
        ("2026-12-01".to_string(), "2026-12-31".to_string())
    );
}

#[test]
fn trend_range_current_month_handles_leap_february() {
    assert_eq!(
        TrendRangePreset::CurrentMonth.resolve_from_date(2028, 2, 10),
        ("2028-02-01".to_string(), "2028-02-29".to_string())
    );
    assert_eq!(
        TrendRangePreset::CurrentMonth.resolve_from_date(2026, 2, 10),
        ("2026-02-01".to_string(), "2026-02-28".to_string())
    );
}

#[test]
fn pm_sort_mode_labels() {
    assert_eq!(PmSortMode::Margin.label(), "Margin");
    assert_eq!(PmSortMode::BudgetUtilization.label(), "Budget Utilization");
    assert_eq!(PmSortMode::EndDate.label(), "End Date");
}

#[test]
fn category_labels_and_options_follow_entry_type() {
    assert_eq!(category_label("client_payment"), "Client Payment");
    assert_eq!(category_label("tax"), "Tax");
    assert_eq!(category_label("milestone_payment"), "Unknown");
    let outflow = category_options("cash_out");
    assert_eq!(outflow, vec![("payroll", "Payroll"), ("vendor_payment", "Vendor Payment"), ("expense", "Expense"), ("tax", "Tax")]);
    let inflow = category_options("cash_in");
    assert_eq!(inflow, vec![("client_payment", "Client Payment"), ("interest", "Interest"), ("other_income", "Other Income")]);
    assert_eq!(category_options("anything"), inflow);
}

#[test]
fn titleize_and_humanize_tokens() {
    assert_eq!(titleize_token("hELLO"), "Hello");
    assert_eq!(titleize_token(""), "");
    assert_eq!(humanize("missing_in_payroll"), "Missing In Payroll");
    assert_eq!(humanize("__a__b_"), "A B");
}

#[test]
fn field_and_status_labels() {
    assert_eq!(field_label("base_salary"), "Base Salary");
    assert_eq!(field_label("bpjs_kesehatan_employer"), "BPJS Kesehatan (Employer)");
    assert_eq!(field_label("thr_bonus_amount"), "Thr Bonus Amount");
    assert_eq!(status_label("BPJS_REGULATION_ERROR"), "BPJS Regulation Error");
    assert_eq!(status_label("MISSING_IN_XYNERGY"), "Missing in Xynergy");
    assert_eq!(status_label("DISCREPANCY"), "Discrepancy");
    assert_eq!(status_label("AMOUNT_MISMATCH"), "Amount Mismatch");
}

#[test]
fn value_preview_cuts_long_text() {
    assert_eq!(value_preview("short"), "short");
    let long: String = std::iter::repeat('x').take(241).collect();
    let preview = value_preview(&long);
    assert_eq!(preview.chars().count(), 241);
    assert!(preview.ends_with('…'));
    let exact: String = std::iter::repeat('y').take(240).collect();
    assert_eq!(value_preview(&exact), exact);
}

#[test]
fn pretty_value_renders_each_kind() {
    assert_eq!(pretty_value(&Json::Null), "—");
    assert_eq!(pretty_value(&Json::Bool(true)), "true");
    assert_eq!(pretty_value(&num(42)), "42");
    assert_eq!(pretty_value(&st("plain")), "plain");
    let arr = Json::Array(vec![num(1), st("a"), Json::Null]);
    assert_eq!(pretty_value(&arr), "[1, \"a\", —]");
    let obj = Json::Object(vec![("k".to_string(), num(7)), ("n".to_string(), Json::Array(vec![]))]);
    assert_eq!(json_preview(&obj), "{\"k\": 7, \"n\": []}");
}

#[test]
fn json_preview_elides_deep_and_wide_values() {
    let deep = Json::Array(vec![Json::Array(vec![Json::Array(vec![num(1)])])]);
    assert_eq!(json_preview(&deep), "[[[…]]]");
    let wide = Json::Array((0..8).map(num).collect());
    assert_eq!(json_preview(&wide), "[0, 1, 2, 3, 4, 5, …]");
    let long = Json::Str(std::iter::repeat('z').take(300).collect());
    let preview = json_preview(&Json::Array(vec![long]));
    assert_eq!(preview.chars().count(), 241);
    assert!(preview.ends_with('…'));
}

#[test]
fn plain_text_preview_skips_json_bodies() {
    assert_eq!(plain_text_preview("  {\"error\":1} "), None);
    assert_eq!(plain_text_preview("[1]"), None);
    assert_eq!(plain_text_preview("   "), None);
    assert_eq!(plain_text_preview("  gateway timeout \n"), Some("gateway timeout".to_string()));
    let long: String = std::iter::repeat('e').take(250).collect();
    let p = plain_text_preview(&long).unwrap();
    assert_eq!(p.chars().count(), 243);
    assert!(p.ends_with("..."));
}

#[test]
fn json_preview_at_any_depth_and_full_buffer() {
    let mut out: Vec<char> = Vec::new();
    push_json_preview(&Json::Array(vec![num(1)]), &mut out, 3, 240);
    assert_eq!(out.iter().collect::<String>(), "[…]");
    let mut out: Vec<char> = Vec::new();
    push_json_preview(&num(5), &mut out, 7, 240);
    assert_eq!(out.iter().collect::<String>(), "5");
    let mut out: Vec<char> = "abcdef".chars().collect();
    push_json_preview(&num(123), &mut out, 0, 4);
    assert_eq!(out.iter().collect::<String>(), "abcdef");
    let mut out: Vec<char> = "ab".chars().collect();
    push_json_preview(&Json::Array(vec![num(1), num(2)]), &mut out, 0, 5);
    assert_eq!(out.iter().collect::<String>(), "ab[1,");
}
