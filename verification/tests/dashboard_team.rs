use xynergy::dashboard::{
    RoleDashboardResponse, DepartmentHeadDashboard, UtilizationSummary, DepartmentBudgetSummary,
    OverallocationSummary, TeamUtilizationMember, TeamUtilizationTrendBundle, TeamUtilizationTrend,
    TeamUtilizationTrendPeriod, ProjectHealthCard, ProjectManagerDashboard, dashboard_value_map,
    team_member_key, trend_period_key, trend_period_columns, sort_pm_cards_by_end_date,
};
use xynergy::value_map::compute_changed_keys;

fn s(v: &str) -> String {
    v.to_string()
}

fn has(changed: &Vec<String>, key: &str) -> bool {
    changed.iter().any(|k| k == key)
}

const ALICE: u128 = 0x0d9c7a52_61b4_4e1f_a2c3_5d6e7f809102;
const BOB: u128 = 0x7e8f9a0b_1c2d_4e3f_8a4b_5c6d7e8f9a0b;

fn empty_response(role: &str) -> RoleDashboardResponse {
    RoleDashboardResponse {
        role: s(role),
        generated_at: s("2026-05-21T00:00:00Z"),
        hr: None,
        department_head: None,
        project_manager: None,
        finance: None,
        admin: None,
    }
}

/// A current project: name, allocation percentage, start, end.
type Proj = (&'static str, f64, &'static str, &'static str);

/// The rendered summary of a member's current projects, as the page builds
/// it (rows sorted by name, dates, then percentage; JSON array of tuples).
fn projects_summary(projects: &[Proj]) -> String {
    if projects.is_empty() {
        return s("none");
    }
    let mut rows: Vec<Proj> = projects.to_vec();
    rows.sort_by(|a, b| {
        a.0.to_lowercase()
            .cmp(&b.0.to_lowercase())
            .then_with(|| a.2.cmp(b.2))
            .then_with(|| a.3.cmp(b.3))
            .then_with(|| a.1.partial_cmp(&b.1).unwrap())
    });
    let rendered: Vec<(&str, String, &str, &str)> =
        rows.iter().map(|p| (p.0, format!("{:.3}", p.1), p.2, p.3)).collect();
    serde_json::to_string(&rendered).unwrap()
}

fn dh_member(id: Option<u128>, name: &str, current: f64, projects: &[Proj]) -> TeamUtilizationMember {
    let available = (100.0f64 - current).max(0.0);
    let available = (available * 10.0).round() / 10.0;
    TeamUtilizationMember {
        resource_id: id,
        resource_name: s(name),
        role: s("engineer"),
        current_utilization_pct_text: format!("{:.1}", current),
        available_capacity_pct_text: format!("{:.1}", available),
        is_underutilized: current < 50.0,
        below_underutilized_threshold: current < 50.0,
        is_overallocated: current > 100.0,
        ctc_status: s("Active"),
        current_projects_summary: projects_summary(projects),
    }
}

fn avg_available(members: &[f64]) -> String {
    if members.is_empty() {
        return s("0.0");
    }
    let total: f64 = members.iter().map(|c| ((100.0f64 - c).max(0.0) * 10.0).round() / 10.0).sum();
    format!("{:.1}", total / members.len() as f64)
}

fn dh_response_with(
    team_members: Vec<TeamUtilizationMember>,
    currents: &[f64],
    trends: Option<TeamUtilizationTrendBundle>,
    budget: Option<DepartmentBudgetSummary>,
) -> RoleDashboardResponse {
    let mut resp = empty_response("department_head");
    resp.department_head = Some(DepartmentHeadDashboard {
        utilization: UtilizationSummary {
            average_utilization_pct_text: s("60.0"),
            overallocated_count: 0,
            top_at_risk: vec![],
        },
        budget,
        overallocations: OverallocationSummary { overallocated_count: 0, members: vec![] },
        upcoming_assignments: vec![],
        team_members,
        utilization_trends: trends,
        avg_available_capacity_pct_text: avg_available(currents),
    });
    resp
}

fn card(name: &str, end_date: &str) -> ProjectHealthCard {
    ProjectHealthCard {
        project_id: Some(ALICE),
        project_name: s(name),
        status: s("Active"),
        end_date: s(end_date),
        total_budget_idr: 100_000_000,
        budget_spent_idr: 30_000_000,
        budget_remaining_idr: 70_000_000,
        budget_status: s("healthy"),
        budget_utilization_pct_text: s("30.0"),
        is_over_budget: false,
        budget_overrun_idr: 0,
        total_revenue_idr: 80_000_000,
        total_cost_idr: 50_000_000,
        gross_profit_idr: 30_000_000,
        margin_pct_text: s("30.0"),
        target_margin_pct_text: s("25.0"),
        margin_alert_threshold_pct_text: s("5.0"),
        margin_alert: None,
        forecast_margin_pct_text: s("25.0"),
        forecast_variance_from_target_pct_text: s("0.0"),
        projected_total_cost_idr: 60_000_000,
        forecast_unavailable: false,
        forecast_has_revenue_signal: true,
        health_status: s("healthy"),
        warning: None,
    }
}

fn pm_map(c: ProjectHealthCard) -> xynergy::value_map::ValueMap {
    let mut resp = empty_response("project_manager");
    resp.project_manager = Some(ProjectManagerDashboard { active_projects: vec![c], margin_alerts: vec![] });
    dashboard_value_map(&resp)
}

#[test]
fn pm_sort_by_end_date_orders_soonest_first() {
    let mut cards = vec![card("Late", "2027-01-15"), card("Soon", "2026-06-01"), card("Mid", "2026-12-31")];
    sort_pm_cards_by_end_date(&mut cards);
    let names: Vec<&str> = cards.iter().map(|c| c.project_name.as_str()).collect();
    assert_eq!(names, vec!["Soon", "Mid", "Late"]);
}

#[test]
fn sort_pm_cards_handles_empty_slice_without_panic() {
    let mut empty: Vec<ProjectHealthCard> = Vec::new();
    sort_pm_cards_by_end_date(&mut empty);
    assert!(empty.is_empty());
}

#[test]
fn end_date_sort_breaks_ties_by_project_name() {
    let mut cards = vec![card("Zeta", "2026-06-01"), card("Alpha", "2026-06-01"), card("Beta", "2026-01-01")];
    sort_pm_cards_by_end_date(&mut cards);
    let names: Vec<&str> = cards.iter().map(|c| c.project_name.as_str()).collect();
    assert_eq!(names, vec!["Beta", "Alpha", "Zeta"]);
}

#[test]
fn pm_forecast_margin_change_produces_expected_key() {
    let mut a = card("Atlas", "2026-12-31");
    a.forecast_margin_pct_text = s("25.0");
    let mut b = card("Atlas", "2026-12-31");
    b.forecast_margin_pct_text = s("8.0");
    let changed = compute_changed_keys(&pm_map(a), &pm_map(b));
    let key = format!("project_manager.project.{}.forecast_margin_pct", uuid_text(ALICE));
    assert!(has(&changed, &key), "got {:?}", changed);
}

#[test]
fn pm_over_budget_transition_produces_expected_key() {
    let make = |over: bool, overrun: i64, spent: i64, utilization: &str| {
        let mut c = card("Atlas", "2026-12-31");
        c.is_over_budget = over;
        c.budget_overrun_idr = overrun;
        c.budget_spent_idr = spent;
        c.budget_utilization_pct_text = s(utilization);
        c.health_status = if over { s("critical") } else { s("healthy") };
        pm_map(c)
    };
    let changed = compute_changed_keys(&make(false, 0, 30_000_000, "30.0"), &make(true, 5_000_000, 105_000_000, "105.0"));
    let id = uuid_text(ALICE);
    for field in ["is_over_budget", "budget_overrun_idr", "health_status"] {
        let key = format!("project_manager.project.{}.{}", id, field);
        assert!(has(&changed, &key), "expected `{}` in {:?}", key, changed);
    }
}

#[test]
fn pm_value_map_excludes_sensitive_keys_for_pm_section() {
    let map = pm_map(card("Atlas", "2026-12-31"));
    let mut serialized = String::new();
    for k in map.keys() {
        serialized.push_str(&k);
        serialized.push('=');
        serialized.push_str(&map.get(&k).unwrap_or_default());
        serialized.push(';');
    }
    for forbidden in ["encrypted_components", "encrypted_daily_rate", "ciphertext", "key_version",
        "encryption_algorithm", "encryption_version", "base_salary", "daily_rate"] {
        assert!(!serialized.contains(forbidden), "leaked `{}`", forbidden);
    }
}

#[test]
fn pm_health_status_change_produces_stable_key() {
    let mut a = card("Atlas", "2026-12-31");
    a.health_status = s("healthy");
    let mut b = card("Atlas", "2026-12-31");
    b.health_status = s("critical");
    let changed = compute_changed_keys(&pm_map(a), &pm_map(b));
    let key = format!("project_manager.project.{}.health_status", uuid_text(ALICE));
    assert!(has(&changed, &key), "got {:?}", changed);
}

#[test]
fn pm_projected_total_cost_idr_change_produces_stable_key() {
    let mut a = card("Atlas", "2026-12-31");
    a.projected_total_cost_idr = 60_000_000;
    let mut b = card("Atlas", "2026-12-31");
    b.projected_total_cost_idr = 95_000_000;
    let changed = compute_changed_keys(&pm_map(a), &pm_map(b));
    let key = format!("project_manager.project.{}.projected_total_cost_idr", uuid_text(ALICE));
    assert!(has(&changed, &key), "got {:?}", changed);
}

#[test]
fn pm_forecast_variance_from_target_pct_change_produces_stable_key() {
    let make = |variance: &str, has_forecast_revenue: bool, target: &str, threshold: &str| {
        let mut c = card("Atlas", "2026-12-31");
        c.forecast_variance_from_target_pct_text = s(variance);
        c.forecast_has_revenue_signal = has_forecast_revenue;
        c.target_margin_pct_text = s(target);
        c.margin_alert_threshold_pct_text = s(threshold);
        pm_map(c)
    };
    let changed = compute_changed_keys(&make("0.0", true, "25.0", "5.0"), &make("-12.5", false, "30.0", "7.5"));
    for field in ["forecast_variance_from_target_pct", "forecast_has_revenue_signal", "target_margin_pct", "margin_alert_threshold_pct"] {
        let key = format!("project_manager.project.{}.{}", uuid_text(ALICE), field);
        assert!(has(&changed, &key), "expected `{}` in {:?}", key, changed);
    }
}

#[test]
fn team_member_key_uses_resource_id_when_present_else_name() {
    let with_id = dh_member(Some(ALICE), "Alice", 40.0, &[]);
    let no_id = dh_member(None, "Anon Person", 40.0, &[]);
    assert_eq!(team_member_key(&with_id), format!("department_head.team.{}", uuid_text(ALICE)));
    assert_eq!(team_member_key(&no_id), "department_head.team.name.Anon Person");
}

#[test]
fn trend_period_key_uses_resource_id_when_present_else_name() {
    let with_id = TeamUtilizationTrend { resource_id: Some(ALICE), resource_name: s("Alice"), periods: vec![] };
    let no_id = TeamUtilizationTrend { resource_id: None, resource_name: s("Anon"), periods: vec![] };
    assert_eq!(trend_period_key(&with_id, "2026-05"), format!("department_head.trend.{}.2026-05", uuid_text(ALICE)));
    assert_eq!(trend_period_key(&no_id, "2026-05"), "department_head.trend.name.Anon.2026-05");
}

#[test]
fn dh_team_utilization_change_produces_expected_keys() {
    let mk = |pct: f64| dh_response_with(vec![dh_member(Some(ALICE), "Alice", pct, &[])], &[pct], None, None);
    let changed = compute_changed_keys(&dashboard_value_map(&mk(40.0)), &dashboard_value_map(&mk(70.0)));
    let row = format!("department_head.team.{}", uuid_text(ALICE));
    for suffix in ["current_utilization_pct", "available_capacity_pct", "is_underutilized"] {
        let key = format!("{}.{}", row, suffix);
        assert!(has(&changed, &key), "expected `{}` in {:?}", key, changed);
    }
    assert!(has(&changed, "department_head.team.avg_available_capacity_pct"));
    assert!(has(&changed, "department_head.team.underutilized_count"));
}

#[test]
fn dh_current_projects_change_produces_stable_key() {
    let mk = |projects: &[Proj]| {
        dh_response_with(vec![dh_member(Some(ALICE), "Alice", 40.0, projects)], &[40.0], None, None)
    };
    let prev_map = dashboard_value_map(&mk(&[("Atlas", 40.0, "2026-05-01", "2026-06-01")]));
    let next_map = dashboard_value_map(&mk(&[
        ("Atlas", 40.0, "2026-05-01", "2026-06-01"),
        ("Beacon", 20.0, "2026-05-15", "2026-06-15"),
    ]));
    let changed = compute_changed_keys(&prev_map, &next_map);
    let key = format!("department_head.team.{}.current_projects", uuid_text(ALICE));
    assert!(has(&changed, &key), "got {:?}", changed);
}

#[test]
fn dh_team_name_and_role_changes_are_tracked() {
    let mut renamed = dh_member(Some(ALICE), "Alice Renamed", 40.0, &[]);
    renamed.role = s("lead engineer");
    let prev_map = dashboard_value_map(&dh_response_with(vec![dh_member(Some(ALICE), "Alice", 40.0, &[])], &[40.0], None, None));
    let next_map = dashboard_value_map(&dh_response_with(vec![renamed], &[40.0], None, None));
    let changed = compute_changed_keys(&prev_map, &next_map);
    assert!(has(&changed, &format!("department_head.team.{}.resource_name", uuid_text(ALICE))));
    assert!(has(&changed, &format!("department_head.team.{}.role", uuid_text(ALICE))));
}

fn period(p: &str, pct: &str) -> TeamUtilizationTrendPeriod {
    TeamUtilizationTrendPeriod { period: s(p), utilization_pct_text: s(pct) }
}

#[test]
fn dh_trend_period_change_produces_expected_key() {
    let mk = |pct: &str| {
        let trend = TeamUtilizationTrendBundle {
            start_date: s("2026-05-01"),
            end_date: s("2026-07-31"),
            members: vec![TeamUtilizationTrend {
                resource_id: Some(ALICE),
                resource_name: s("Alice"),
                periods: vec![period("2026-05", "60"), period("2026-06", pct)],
            }],
        };
        dh_response_with(vec![], &[], Some(trend), None)
    };
    let changed = compute_changed_keys(&dashboard_value_map(&mk("50")), &dashboard_value_map(&mk("80")));
    let key = format!("department_head.trend.{}.2026-06", uuid_text(ALICE));
    assert!(has(&changed, &key), "got {:?}", changed);
    assert!(!has(&changed, &format!("department_head.trend.{}.2026-05", uuid_text(ALICE))));
}

#[test]
fn trend_period_columns_union_sparse_member_periods() {
    let bundle = TeamUtilizationTrendBundle {
        start_date: s("2026-05-01"),
        end_date: s("2026-07-31"),
        members: vec![
            TeamUtilizationTrend { resource_id: Some(ALICE), resource_name: s("Alice"), periods: vec![period("2026-06", "60")] },
            TeamUtilizationTrend {
                resource_id: Some(BOB),
                resource_name: s("Bob"),
                periods: vec![period("2026-05", "10"), period("2026-07", "30")],
            },
        ],
    };
    assert_eq!(trend_period_columns(&bundle), vec![s("2026-05"), s("2026-06"), s("2026-07")]);
}

#[test]
fn dh_budget_spent_actual_and_threshold_keys_present() {
    let budget = DepartmentBudgetSummary {
        total_budget_idr: 50_000_000,
        total_committed_idr: 20_000_000,
        spent_actual_idr: 12_500_000,
        remaining_idr: 30_000_000,
        utilization_percentage_text: s("40"),
        budget_health: s("healthy"),
        alert_threshold_pct: 80,
    };
    let map = dashboard_value_map(&dh_response_with(vec![], &[], None, Some(budget)));
    assert!(map.contains_key(&s("department_head.budget.spent_actual_idr")));
    assert!(map.contains_key(&s("department_head.budget.alert_threshold_pct")));
    assert_eq!(map.get(&s("department_head.budget.spent_actual_idr")), Some(s("12500000")));
    assert_eq!(map.get(&s("department_head.budget.alert_threshold_pct")), Some(s("80")));
}

#[test]
fn dh_team_value_map_excludes_sensitive_ctc_fields() {
    let member = dh_member(Some(ALICE), "Alice", 40.0, &[]);
    let map = dashboard_value_map(&dh_response_with(vec![member], &[40.0], None, None));
    let mut serialized = String::new();
    for k in map.keys() {
        serialized.push_str(&k);
        serialized.push('=');
        serialized.push_str(&map.get(&k).unwrap_or_default());
        serialized.push(';');
    }
    for forbidden in ["encrypted_components", "encrypted_daily_rate", "ciphertext", "key_version",
        "encryption_algorithm", "encryption_version", "base_salary", "daily_rate"] {
        assert!(!serialized.contains(forbidden), "leaked `{}`", forbidden);
    }
}

#[test]
fn dh_member_count_flashes_when_row_removed() {
    let prev = dh_response_with(
        vec![dh_member(Some(ALICE), "Alice", 40.0, &[]), dh_member(Some(BOB), "Bob", 70.0, &[])],
        &[40.0, 70.0],
        None,
        None,
    );
    let next = dh_response_with(vec![dh_member(Some(ALICE), "Alice", 40.0, &[])], &[40.0], None, None);
    let changed = compute_changed_keys(&dashboard_value_map(&prev), &dashboard_value_map(&next));
    assert!(has(&changed, "department_head.team.member_count"), "got {:?}", changed);
    let removed = format!("department_head.team.{}.current_utilization_pct", uuid_text(BOB));
    assert!(!has(&changed, &removed));
}

#[test]
fn dh_underutilized_count_flashes_when_member_crosses_threshold() {
    let prev_map = dashboard_value_map(&dh_response_with(vec![dh_member(Some(ALICE), "Alice", 40.0, &[])], &[40.0], None, None));
    let next_map = dashboard_value_map(&dh_response_with(vec![dh_member(Some(ALICE), "Alice", 60.0, &[])], &[60.0], None, None));
    let changed = compute_changed_keys(&prev_map, &next_map);
    assert!(has(&changed, "department_head.team.underutilized_count"), "got {:?}", changed);
    assert!(has(&changed, &format!("department_head.team.{}.is_underutilized", uuid_text(ALICE))));
}

#[test]
fn dh_overallocated_flag_flashes_independently() {
    let make = |overallocated: bool| {
        let mut member = dh_member(Some(ALICE), "Alice", 100.0, &[]);
        member.is_overallocated = overallocated;
        dh_response_with(vec![member], &[100.0], None, None)
    };
    let changed = compute_changed_keys(&dashboard_value_map(&make(false)), &dashboard_value_map(&make(true)));
    let key = format!("department_head.team.{}.is_overallocated", uuid_text(ALICE));
    assert!(has(&changed, &key), "got {:?}", changed);
}

#[test]
fn dh_current_projects_flashes_on_allocation_pct_change_only() {
    let mk = |pct: f64| {
        let projects: Vec<Proj> = vec![("Atlas", pct, "2026-05-01", "2026-06-01")];
        dh_response_with(vec![dh_member(Some(ALICE), "Alice", 40.0, &projects)], &[40.0], None, None)
    };
    let changed = compute_changed_keys(&dashboard_value_map(&mk(20.0)), &dashboard_value_map(&mk(35.0)));
    let key = format!("department_head.team.{}.current_projects", uuid_text(ALICE));
    assert!(has(&changed, &key), "got {:?}", changed);
}

#[test]
fn dh_avg_available_capacity_is_zero_when_team_is_empty() {
    let map = dashboard_value_map(&dh_response_with(vec![], &[], None, None));
    assert_eq!(map.get(&s("department_head.team.avg_available_capacity_pct")), Some(s("0.0")));
    assert_eq!(map.get(&s("department_head.team.member_count")), Some(s("0")));
    assert_eq!(map.get(&s("department_head.team.underutilized_count")), Some(s("0")));
}

#[test]
fn underutilized_member_counts_when_backend_flag_or_threshold_says_so() {
    let mut flagged = dh_member(Some(ALICE), "Alice", 60.0, &[]);
    flagged.is_underutilized = true;
    let below = dh_member(Some(BOB), "Bob", 49.9, &[]);
    let mut at_threshold = dh_member(None, "Cara", 50.0, &[]);
    at_threshold.is_underutilized = false;
    let map = dashboard_value_map(&dh_response_with(vec![flagged, below, at_threshold], &[60.0, 49.9, 50.0], None, None));
    assert_eq!(map.get(&s("department_head.team.underutilized_count")), Some(s("2")));
    assert_eq!(map.get(&s("department_head.team.name.Cara.is_underutilized")), Some(s("false")));

}

fn uuid_text(u: u128) -> String {
    uuid::Uuid::from_u128(u).to_string()
}
