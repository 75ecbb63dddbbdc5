use xynergy::dashboard::{
    RoleDashboardResponse, HrDashboard, CompletenessReport, HrPendingUpdates, HrMissingEmployee,
    RecentCtcChange, ComplianceAlertSummary, ComplianceTopRisk, DepartmentHeadDashboard,
    UtilizationSummary, UtilizationAtRisk, DepartmentBudgetSummary, OverallocationSummary,
    UpcomingAssignment, ProjectManagerDashboard, ProjectHealthCard, MarginAlert, FinanceDashboard,
    CashPositionSummary, CtcValidationStatus, AuditAlertsSummary, AuditAlertEntry,
    ExportRequestsSummary, PendingExportRequest, AdminDashboard, dashboard_value_map,
};
use xynergy::value_map::compute_changed_keys;

fn s(v: &str) -> String {
    v.to_string()
}

fn has(changed: &Vec<String>, key: &str) -> bool {
    changed.iter().any(|k| k == key)
}

fn empty_response(role: &str) -> RoleDashboardResponse {
    RoleDashboardResponse {
        role: s(role),
        generated_at: s("2026-05-21T00:00:00Z"),
        hr: None,
        department_head: None,
        project_manager: None,
        finance: None,
        admin: None,
    }
}

fn admin_response(total_active_projects: i64, total_users: i64) -> RoleDashboardResponse {
    let mut resp = empty_response("admin");
    resp.admin = Some(AdminDashboard {
        total_users,
        total_departments: 4,
        total_active_projects,
        total_active_ctc_records: 22,
        pending_export_requests: 1,
        access_denied_24h: 0,
    });
    resp
}

fn hr_section(
    totals: (i64, i64, i64, &str),
    sample: Vec<HrMissingEmployee>,
    recent_changes: Vec<RecentCtcChange>,
    compliance: (i64, i64, i64, &str, Vec<ComplianceTopRisk>),
) -> HrDashboard {
    HrDashboard {
        completeness: CompletenessReport {
            total_employees: totals.0,
            total_with_ctc: totals.1,
            total_missing: totals.2,
            overall_completion_pct_text: s(totals.3),
        },
        pending_updates: HrPendingUpdates {
            missing_count: totals.2,
            sample,
        },
        recent_changes,
        compliance_alerts: ComplianceAlertSummary {
            start_date: s("2026-05-01"),
            end_date: s("2026-05-21"),
            total_validated: compliance.0,
            total_passed: compliance.1,
            total_discrepancies: compliance.2,
            compliance_rate_pct_text: s(compliance.3),
            top_risks: compliance.4,
        },
    }
}

fn dh_section(average: &str, overallocated: i64) -> DepartmentHeadDashboard {
    DepartmentHeadDashboard {
        utilization: UtilizationSummary {
            average_utilization_pct_text: s(average),
            overallocated_count: overallocated,
            top_at_risk: vec![],
        },
        budget: None,
        overallocations: OverallocationSummary {
            overallocated_count: overallocated,
            members: vec![],
        },
        upcoming_assignments: vec![],
        team_members: vec![],
        utilization_trends: None,
        avg_available_capacity_pct_text: s("0.0"),
    }
}

fn pm_card_default(project_id: Option<u128>, project_name: &str) -> ProjectHealthCard {
    ProjectHealthCard {
        project_id,
        project_name: s(project_name),
        status: s("Active"),
        end_date: s("2026-12-31"),
        total_budget_idr: 100_000_000,
        budget_spent_idr: 30_000_000,
        budget_remaining_idr: 70_000_000,
        budget_status: s("healthy"),
        budget_utilization_pct_text: s("30.0"),
        is_over_budget: false,
        budget_overrun_idr: 0,
        total_revenue_idr: 80_000_000,
        total_cost_idr: 50_000_000,
        gross_profit_idr: 30_000_000,
        margin_pct_text: s("30.0"),
        target_margin_pct_text: s("25.0"),
        margin_alert_threshold_pct_text: s("5.0"),
        margin_alert: None,
        forecast_margin_pct_text: s("25.0"),
        forecast_variance_from_target_pct_text: s("0.0"),
        projected_total_cost_idr: 60_000_000,
        forecast_unavailable: false,
        forecast_has_revenue_signal: true,
        health_status: s("healthy"),
        warning: None,
    }
}

fn pm_response(cards: Vec<ProjectHealthCard>, alerts: Vec<MarginAlert>) -> RoleDashboardResponse {
    let mut resp = empty_response("project_manager");
    resp.project_manager = Some(ProjectManagerDashboard {
        active_projects: cards,
        margin_alerts: alerts,
    });
    resp
}

fn finance_response_with_cash(net_idr: i64, ending_idr: i64) -> RoleDashboardResponse {
    let mut resp = empty_response("finance");
    resp.finance = Some(FinanceDashboard {
        cash_position: CashPositionSummary {
            total_cash_in_idr: 10_000_000,
            total_cash_out_idr: 3_000_000,
            net_cash_flow_idr: net_idr,
            ending_cumulative_position_idr: ending_idr,
        },
        ctc_validation: CtcValidationStatus {
            status: s("no_data"),
            total_compared: None,
            total_matches: None,
            total_discrepancies: None,
            match_rate_pct_text: None,
        },
        audit_alerts: AuditAlertsSummary {
            access_denied_count: 0,
            login_failed_count: 0,
            login_blocked_count: 0,
            chain_verification_failure_count: 0,
            recent: vec![],
        },
        export_requests: ExportRequestsSummary {
            pending_count: 0,
            latest_pending: vec![],
        },
    });
    resp
}

fn alice_change(resource_id: Option<u128>) -> RecentCtcChange {
    RecentCtcChange {
        resource_id,
        resource_name: s("Alice"),
        revision_number: 3,
        changed_by_name: Some(s("Bob")),
        created_at: s("2026-05-21T01:00:00Z"),
        reason: s("promotion"),
    }
}

const RESOURCE_A: u128 = 0x3f2504e0_4f89_41d3_9a0c_0305e82c3301;
const RESOURCE_B: u128 = 0x9b2d6c1e_7a44_4c0e_8f1d_2b7c5e9a1f02;

#[test]
fn initial_load_produces_no_changed_keys() {
    let next = dashboard_value_map(&admin_response(7, 50));
    let changed: Vec<String> = Vec::new();
    assert!(changed.is_empty());
    assert!(next.contains_key(&s("admin.total_active_projects")));
}

#[test]
fn generated_at_only_change_produces_no_changed_keys() {
    let mut prev_resp = admin_response(7, 50);
    let mut next_resp = admin_response(7, 50);
    prev_resp.generated_at = s("2026-05-21T00:00:00Z");
    next_resp.generated_at = s("2026-05-21T00:00:30Z");
    let prev_map = dashboard_value_map(&prev_resp);
    let next_map = dashboard_value_map(&next_resp);
    let changed = compute_changed_keys(&prev_map, &next_map);
    assert!(changed.is_empty(), "generated_at-only delta must not produce changed keys, got {:?}", changed);
}

#[test]
fn scalar_change_produces_expected_key() {
    let prev_map = dashboard_value_map(&admin_response(7, 50));
    let next_map = dashboard_value_map(&admin_response(8, 50));
    let changed = compute_changed_keys(&prev_map, &next_map);
    assert!(has(&changed, "admin.total_active_projects"), "got {:?}", changed);
    assert!(!has(&changed, "admin.total_users"));
}

#[test]
fn newly_visible_row_produces_expected_key() {
    let mut prev_resp = empty_response("hr");
    prev_resp.hr = Some(hr_section((10, 9, 1, "90.0"), vec![], vec![], (0, 0, 0, "100.0", vec![])));
    let mut next_resp = empty_response("hr");
    next_resp.hr = Some(hr_section(
        (10, 9, 1, "90.0"),
        vec![],
        vec![alice_change(Some(RESOURCE_A))],
        (0, 0, 0, "100.0", vec![]),
    ));
    let prev_map = dashboard_value_map(&prev_resp);
    let next_map = dashboard_value_map(&next_resp);
    let changed = compute_changed_keys(&prev_map, &next_map);
    let expected_key = format!("hr.recent_changes.{}|rev3|2026-05-21T01:00:00Z", uuid_text(RESOURCE_A));
    assert!(has(&changed, &expected_key), "newly visible row should appear in {:?}", changed);
}

#[test]
fn removed_row_does_not_panic() {
    let mut prev_resp = empty_response("hr");
    prev_resp.hr = Some(hr_section(
        (10, 9, 1, "90.0"),
        vec![],
        vec![alice_change(Some(RESOURCE_A))],
        (0, 0, 0, "100.0", vec![]),
    ));
    let mut next_resp = empty_response("hr");
    next_resp.hr = Some(hr_section((10, 9, 1, "90.0"), vec![], vec![], (0, 0, 0, "100.0", vec![])));
    let prev_map = dashboard_value_map(&prev_resp);
    let next_map = dashboard_value_map(&next_resp);
    let changed = compute_changed_keys(&prev_map, &next_map);
    let removed_key = format!("hr.recent_changes.{}|rev3|2026-05-21T01:00:00Z", uuid_text(RESOURCE_A));
    assert!(!has(&changed, &removed_key));
}

fn dept_head_response_with_budget_pct(utilization_pct: &str) -> RoleDashboardResponse {
    let mut resp = empty_response("department_head");
    let mut dh = dh_section("75.0", 0);
    dh.budget = Some(DepartmentBudgetSummary {
        total_budget_idr: 100_000_000,
        total_committed_idr: 50_000_000,
        spent_actual_idr: 0,
        remaining_idr: 50_000_000,
        utilization_percentage_text: s(utilization_pct),
        budget_health: s("healthy"),
        alert_threshold_pct: 80,
    });
    resp.department_head = Some(dh);
    resp
}

#[test]
fn dept_head_budget_utilization_change_produces_expected_key() {
    let prev_map = dashboard_value_map(&dept_head_response_with_budget_pct("50"));
    let next_map = dashboard_value_map(&dept_head_response_with_budget_pct("75"));
    let changed = compute_changed_keys(&prev_map, &next_map);
    assert!(has(&changed, "department_head.budget.utilization_percentage"), "got {:?}", changed);
}

#[test]
fn dept_head_upcoming_assignment_id_change_produces_stable_key() {
    let alloc_id = RESOURCE_B;
    let make = |pct: &str| {
        let mut resp = empty_response("department_head");
        let mut dh = dh_section("0.0", 0);
        dh.upcoming_assignments = vec![UpcomingAssignment {
            allocation_id: Some(alloc_id),
            resource_name: s("Alice"),
            project_name: s("Atlas"),
            start_date: s("2026-06-01"),
            end_date: s("2026-06-30"),
            allocation_percentage_text: s(pct),
        }];
        resp.department_head = Some(dh);
        resp
    };
    let prev_map = dashboard_value_map(&make("40"));
    let next_map = dashboard_value_map(&make("80"));
    let changed = compute_changed_keys(&prev_map, &next_map);
    let expected_key = format!("department_head.upcoming_assignments.{}", uuid_text(alloc_id));
    assert!(has(&changed, &expected_key), "expected `{}` in {:?}", expected_key, changed);
    assert!(!changed.iter().any(|k| k.starts_with("department_head.upcoming_assignments.name.")));
}

#[test]
fn project_manager_margin_pct_change_produces_expected_key() {
    let make = |margin: &str| {
        let mut card = pm_card_default(Some(0), "Atlas");
        card.margin_pct_text = s(margin);
        pm_response(vec![card], vec![])
    };
    let prev_map = dashboard_value_map(&make("25.0"));
    let next_map = dashboard_value_map(&make("8.0"));
    let changed = compute_changed_keys(&prev_map, &next_map);
    let nil = uuid_text(0);
    assert_eq!(nil, "00000000-0000-0000-0000-000000000000");
    let expected_key = format!("project_manager.project.{}.margin_pct", nil);
    assert!(has(&changed, &expected_key), "expected `{}` in {:?}", expected_key, changed);
    assert!(!has(&changed, &format!("project_manager.project.{}.gross_profit_idr", nil)));
}

#[test]
fn project_manager_margin_alert_uses_project_id_stable_key() {
    let project_id = RESOURCE_A;
    let baseline_map = dashboard_value_map(&empty_response("project_manager"));
    let next_map = dashboard_value_map(&pm_response(
        vec![],
        vec![MarginAlert {
            project_id: Some(project_id),
            project_name: s("Atlas"),
            margin_pct_text: s("5.0"),
            message: s("Margin below threshold"),
        }],
    ));
    let changed = compute_changed_keys(&baseline_map, &next_map);
    let expected_key = format!("project_manager.margin_alert.{}", uuid_text(project_id));
    assert!(has(&changed, &expected_key), "got {:?}", changed);
}

#[test]
fn finance_cash_position_change_produces_expected_key() {
    let prev_map = dashboard_value_map(&finance_response_with_cash(7_000_000, 50_000_000));
    let next_map = dashboard_value_map(&finance_response_with_cash(5_000_000, 48_000_000));
    let changed = compute_changed_keys(&prev_map, &next_map);
    assert!(has(&changed, "finance.cash_position.ending_cumulative_position_idr"), "got {:?}", changed);
    assert!(has(&changed, "finance.cash_position.net_cash_flow_idr"), "got {:?}", changed);
}

#[test]
fn finance_export_request_new_pending_id_produces_changed_key() {
    let baseline = finance_response_with_cash(0, 0);
    let export_id = RESOURCE_B;
    let mut next = finance_response_with_cash(0, 0);
    if let Some(f) = next.finance.as_mut() {
        f.export_requests = ExportRequestsSummary {
            pending_count: 1,
            latest_pending: vec![PendingExportRequest {
                id: Some(export_id),
                status: s("pending_approval"),
                created_at: s("2026-05-21T02:00:00Z"),
                report_type: Some(s("compliance_audit")),
            }],
        };
    }
    let prev_map = dashboard_value_map(&baseline);
    let next_map = dashboard_value_map(&next);
    let changed = compute_changed_keys(&prev_map, &next_map);
    let expected_key = format!("finance.export_requests.latest.{}", uuid_text(export_id));
    assert!(has(&changed, &expected_key), "got {:?}", changed);
    assert!(has(&changed, "finance.export_requests.pending_count"));
}

#[test]
fn finance_audit_alerts_total_change_produces_expected_key() {
    let mut prev = finance_response_with_cash(0, 0);
    if let Some(f) = prev.finance.as_mut() {
        f.audit_alerts.access_denied_count = 1;
    }
    let mut next = finance_response_with_cash(0, 0);
    if let Some(f) = next.finance.as_mut() {
        f.audit_alerts.access_denied_count = 1;
        f.audit_alerts.login_failed_count = 2;
    }
    let prev_map = dashboard_value_map(&prev);
    let next_map = dashboard_value_map(&next);
    let changed = compute_changed_keys(&prev_map, &next_map);
    assert!(has(&changed, "finance.audit_alerts.total"), "got {:?}", changed);
    assert!(!has(&changed, "finance.audit_alerts.access_denied_count"));
}

#[test]
fn value_map_excludes_generated_at_key() {
    let map = dashboard_value_map(&admin_response(5, 10));
    let keys = map.keys();
    assert!(!keys.is_empty());
    assert!(keys.iter().all(|k| !k.contains("generated_at")), "got {:?}", keys);
}

#[test]
fn value_map_excludes_sensitive_ctc_fields() {
    let mut resp = empty_response("hr");
    let mut change = alice_change(Some(RESOURCE_A));
    change.revision_number = 1;
    change.created_at = s("2026-05-21T03:00:00Z");
    change.reason = s("Promotion");
    resp.hr = Some(hr_section((5, 5, 0, "100.0"), vec![], vec![change], (1, 1, 0, "100.0", vec![])));
    let map = dashboard_value_map(&resp);
    let mut serialized = String::new();
    for k in map.keys() {
        serialized.push_str(&k);
        serialized.push('=');
        serialized.push_str(&map.get(&k).unwrap_or_default());
        serialized.push(';');
    }
    for forbidden in [
        "encrypted_components",
        "encrypted_daily_rate",
        "ciphertext",
        "key_version",
        "encryption_algorithm",
        "encryption_version",
        "base_salary",
        "daily_rate",
    ] {
        assert!(!serialized.contains(forbidden), "leaked `{}` in {}", forbidden, serialized);
    }
}

#[test]
fn fallback_key_used_when_resource_id_missing() {
    let mut resp = empty_response("hr");
    resp.hr = Some(hr_section(
        (1, 1, 0, "100.0"),
        vec![],
        vec![RecentCtcChange {
            resource_id: None,
            resource_name: s("Anon Person"),
            revision_number: 1,
            changed_by_name: None,
            created_at: s("2026-05-21T04:00:00Z"),
            reason: s("raise"),
        }],
        (0, 0, 0, "100.0", vec![]),
    ));
    let map = dashboard_value_map(&resp);
    assert!(
        map.keys().iter().any(|k| k == "hr.recent_changes.name.Anon Person|rev1|2026-05-21T04:00:00Z"),
        "got keys = {:?}",
        map.keys()
    );
}

#[test]
fn hr_pending_updates_sample_id_keyed_change() {
    let baseline = empty_response("hr");
    let emp_id = RESOURCE_A;
    let mut next = empty_response("hr");
    next.hr = Some(hr_section(
        (10, 9, 1, "90.0"),
        vec![HrMissingEmployee { id: Some(emp_id), name: s("Charlie"), department: s("Engineering") }],
        vec![],
        (0, 0, 0, "100.0", vec![]),
    ));
    let prev_map = dashboard_value_map(&baseline);
    let next_map = dashboard_value_map(&next);
    let changed = compute_changed_keys(&prev_map, &next_map);
    let expected_key = format!("hr.pending_updates.sample.{}", uuid_text(emp_id));
    assert!(has(&changed, &expected_key), "got {:?}", changed);
    assert_eq!(next_map.get(&expected_key), Some(s("Charlie|Engineering")));
}

#[test]
fn hr_compliance_top_risks_id_keyed_row_change() {
    let baseline = empty_response("hr");
    let resource_id = RESOURCE_B;
    let mut next = empty_response("hr");
    next.hr = Some(hr_section(
        (5, 5, 0, "100.0"),
        vec![],
        vec![],
        (1, 0, 1, "0.0", vec![ComplianceTopRisk { resource_id: Some(resource_id), name: s("Dana"), variance_amount: 12_500_000 }]),
    ));
    let prev_map = dashboard_value_map(&baseline);
    let next_map = dashboard_value_map(&next);
    let changed = compute_changed_keys(&prev_map, &next_map);
    let expected_key = format!("hr.compliance_alerts.top_risks.{}", uuid_text(resource_id));
    assert!(has(&changed, &expected_key), "got {:?}", changed);
    assert!(!changed.iter().any(|k| k.starts_with("hr.compliance_alerts.top_risks.name.")));
}

#[test]
fn dept_head_top_at_risk_id_stable_key() {
    let baseline = empty_response("department_head");
    let resource_id = RESOURCE_A;
    let mut next = empty_response("department_head");
    let mut dh = dh_section("92.0", 1);
    dh.utilization.top_at_risk = vec![UtilizationAtRisk {
        resource_id: Some(resource_id),
        resource_name: s("Erin"),
        current_allocation_pct_text: s("130"),
    }];
    next.department_head = Some(dh);
    let prev_map = dashboard_value_map(&baseline);
    let next_map = dashboard_value_map(&next);
    let changed = compute_changed_keys(&prev_map, &next_map);
    let expected_key = format!("department_head.top_at_risk.{}", uuid_text(resource_id));
    assert!(has(&changed, &expected_key), "got {:?}", changed);
}

#[test]
fn pm_project_fallback_key_used_when_project_id_missing() {
    let make = |margin: &str| {
        let mut card = pm_card_default(None, "Orphan Project");
        card.margin_pct_text = s(margin);
        card.total_budget_idr = 50_000_000;
        card.budget_spent_idr = 10_000_000;
        card.budget_remaining_idr = 40_000_000;
        card.budget_utilization_pct_text = s("20.0");
        card.total_revenue_idr = 30_000_000;
        card.total_cost_idr = 20_000_000;
        card.gross_profit_idr = 10_000_000;
        pm_response(vec![card], vec![])
    };
    let prev_map = dashboard_value_map(&make("30.0"));
    let next_map = dashboard_value_map(&make("12.0"));
    let changed = compute_changed_keys(&prev_map, &next_map);
    assert!(has(&changed, "project_manager.project.name.Orphan Project.margin_pct"), "got {:?}", changed);
}

#[test]
fn pm_active_projects_count_changes_when_project_added() {
    let baseline = empty_response("project_manager");
    let mut card = pm_card_default(Some(RESOURCE_A), "Atlas");
    card.total_budget_idr = 1;
    card.budget_spent_idr = 0;
    card.budget_remaining_idr = 1;
    card.budget_utilization_pct_text = s("0.0");
    card.total_revenue_idr = 0;
    card.total_cost_idr = 0;
    card.gross_profit_idr = 0;
    card.margin_pct_text = s("0.0");
    let next = pm_response(vec![card], vec![]);
    let prev_map = dashboard_value_map(&baseline);
    let next_map = dashboard_value_map(&next);
    let changed = compute_changed_keys(&prev_map, &next_map);
    assert!(has(&changed, "project_manager.active_projects.count"), "got {:?}", changed);
}

#[test]
fn finance_audit_alerts_recent_row_uses_id_stable_key() {
    let baseline = finance_response_with_cash(0, 0);
    let entry_id = RESOURCE_B;
    let mut next = finance_response_with_cash(0, 0);
    if let Some(f) = next.finance.as_mut() {
        f.audit_alerts.access_denied_count = 1;
        f.audit_alerts.recent = vec![AuditAlertEntry {
            id: Some(entry_id),
            action: s("access_denied"),
            entity_type: s("ctc_record"),
            created_at: s("2026-05-21T05:00:00Z"),
        }];
    }
    let prev_map = dashboard_value_map(&baseline);
    let next_map = dashboard_value_map(&next);
    let changed = compute_changed_keys(&prev_map, &next_map);
    let expected_key = format!("finance.audit_alerts.recent.{}", uuid_text(entry_id));
    assert!(has(&changed, &expected_key), "got {:?}", changed);
    assert!(!changed.iter().any(|k| k.starts_with("finance.audit_alerts.recent.access_denied|")));
}

#[test]
fn finance_ctc_validation_status_change_produces_expected_key() {
    let prev = finance_response_with_cash(0, 0);
    let mut next = finance_response_with_cash(0, 0);
    if let Some(f) = next.finance.as_mut() {
        f.ctc_validation = CtcValidationStatus {
            status: s("passing"),
            total_compared: Some(10),
            total_matches: Some(10),
            total_discrepancies: Some(0),
            match_rate_pct_text: Some(s("100.0")),
        };
    }
    let prev_map = dashboard_value_map(&prev);
    let next_map = dashboard_value_map(&next);
    let changed = compute_changed_keys(&prev_map, &next_map);
    assert!(has(&changed, "finance.ctc_validation.status"), "got {:?}", changed);
    assert!(has(&changed, "finance.ctc_validation.match_rate_pct"), "got {:?}", changed);

}

fn uuid_text(u: u128) -> String {
    uuid::Uuid::from_u128(u).to_string()
}

#[test]
fn renaming_id_keyed_rows_keeps_the_key_set() {
    let make = |name: &str| {
        let card = pm_card_default(Some(RESOURCE_A), name);
        let alert = MarginAlert {
            project_id: Some(RESOURCE_A),
            project_name: s(name),
            margin_pct_text: s("5.0"),
            message: s("Margin below threshold"),
        };
        pm_response(vec![card], vec![alert])
    };
    let mut before = dashboard_value_map(&make("Atlas")).keys();
    let mut after = dashboard_value_map(&make("Atlas Renamed")).keys();
    before.sort();
    after.sort();
    assert_eq!(before, after);
    assert!(before.iter().all(|k| !k.contains(".name.")));
}

#[test]
fn only_the_changed_card_fields_are_highlighted() {
    let make = |margin: &str, over: bool, status: &str| {
        let mut card = pm_card_default(Some(RESOURCE_A), "Atlas");
        card.margin_pct_text = s(margin);
        card.is_over_budget = over;
        card.health_status = s(status);
        pm_response(vec![card], vec![])
    };
    let prev = dashboard_value_map(&make("25.0", false, "healthy"));
    let next = dashboard_value_map(&make("25.0", true, "at_risk"));
    let mut changed = compute_changed_keys(&prev, &next);
    changed.sort();
    let k = format!("project_manager.project.{}", uuid_text(RESOURCE_A));
    assert_eq!(changed, vec![format!("{}.health_status", k), format!("{}.is_over_budget", k)]);
}

#[test]
fn revision_reason_never_reaches_the_value_map() {
    let make = |reason: &str| {
        let mut change = alice_change(Some(RESOURCE_A));
        change.reason = s(reason);
        let mut resp = empty_response("hr");
        resp.hr = Some(hr_section((5, 5, 0, "100.0"), vec![], vec![change], (1, 1, 0, "100.0", vec![])));
        resp
    };
    let a = dashboard_value_map(&make("promotion"));
    let b = dashboard_value_map(&make("encrypted_daily_rate adjusted"));
    assert!(compute_changed_keys(&a, &b).is_empty());
    for k in b.keys() {
        assert!(!k.contains("encrypted_daily_rate"));
        assert!(!b.get(&k).unwrap_or_default().contains("encrypted_daily_rate"));
    }
}
