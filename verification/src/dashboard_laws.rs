use vstd::prelude::*;
use crate::dashboard::{
    HrDashboard, DepartmentHeadDashboard, ProjectManagerDashboard, RecentCtcChange, TeamUtilizationTrend,
    hr_entries, dh_entries, hr_recent_stepper, hr_sample_stepper, hr_risk_stepper, dh_top_at_risk_stepper,
    dh_overalloc_stepper, dh_upcoming_stepper, dh_member_stepper, dh_trend_member_stepper, dh_period_stepper,
    recent_change_key, pipe2, pipe3, id_or_name,
    ProjectHealthCard, RoleDashboardResponse, FinanceDashboard, AdminDashboard, MarginAlert,
    pm_project_step, pm_entries, pm_alert_stepper, pm_project_stepper, finance_entries, admin_entries,
    fold_rows, project_id_key, dashboard_values, bool_text, opt_text, fin_recent_stepper, fin_pending_stepper,
};
use crate::value_map::changed_keys_spec;
use crate::numbers::int_text;
use crate::ids::{uuid_hyphenated, lemma_uuid_chars};

verus! {

/// The key suffix of shown card field number `i` (`0 <= i < 24`).
pub open spec fn card_suffix(i: int) -> Seq<char> {
    if i == 0 {
        ".margin_pct"@
    } else if i == 1 {
        ".project_name"@
    } else if i == 2 {
        ".status"@
    } else if i == 3 {
        ".end_date"@
    } else if i == 4 {
        ".total_budget_idr"@
    } else if i == 5 {
        ".budget_spent_idr"@
    } else if i == 6 {
        ".gross_profit_idr"@
    } else if i == 7 {
        ".budget_status"@
    } else if i == 8 {
        ".budget_remaining_idr"@
    } else if i == 9 {
        ".total_revenue_idr"@
    } else if i == 10 {
        ".total_cost_idr"@
    } else if i == 11 {
        ".warning"@
    } else if i == 12 {
        ".margin_alert"@
    } else if i == 13 {
        ".budget_utilization_pct"@
    } else if i == 14 {
        ".is_over_budget"@
    } else if i == 15 {
        ".budget_overrun_idr"@
    } else if i == 16 {
        ".forecast_margin_pct"@
    } else if i == 17 {
        ".forecast_variance_from_target_pct"@
    } else if i == 18 {
        ".projected_total_cost_idr"@
    } else if i == 19 {
        ".forecast_unavailable"@
    } else if i == 20 {
        ".forecast_has_revenue_signal"@
    } else if i == 21 {
        ".health_status"@
    } else if i == 22 {
        ".target_margin_pct"@
    } else {
        ".margin_alert_threshold_pct"@
    }
}

/// The shown value of card field number `i` (`0 <= i < 24`).
pub open spec fn card_value(c: ProjectHealthCard, i: int) -> Seq<char> {
    if i == 0 {
        c.margin_pct_text@
    } else if i == 1 {
        c.project_name@
    } else if i == 2 {
        c.status@
    } else if i == 3 {
        c.end_date@
    } else if i == 4 {
        int_text(c.total_budget_idr as int)
    } else if i == 5 {
        int_text(c.budget_spent_idr as int)
    } else if i == 6 {
        int_text(c.gross_profit_idr as int)
    } else if i == 7 {
        c.budget_status@
    } else if i == 8 {
        int_text(c.budget_remaining_idr as int)
    } else if i == 9 {
        int_text(c.total_revenue_idr as int)
    } else if i == 10 {
        int_text(c.total_cost_idr as int)
    } else if i == 11 {
        opt_text(c.warning)
    } else if i == 12 {
        opt_text(c.margin_alert)
    } else if i == 13 {
        c.budget_utilization_pct_text@
    } else if i == 14 {
        bool_text(c.is_over_budget)
    } else if i == 15 {
        int_text(c.budget_overrun_idr as int)
    } else if i == 16 {
        c.forecast_margin_pct_text@
    } else if i == 17 {
        c.forecast_variance_from_target_pct_text@
    } else if i == 18 {
        int_text(c.projected_total_cost_idr as int)
    } else if i == 19 {
        bool_text(c.forecast_unavailable)
    } else if i == 20 {
        bool_text(c.forecast_has_revenue_signal)
    } else if i == 21 {
        c.health_status@
    } else if i == 22 {
        c.target_margin_pct_text@
    } else {
        c.margin_alert_threshold_pct_text@
    }
}

/// The key under which a card of project `id` shows its fields.
pub open spec fn project_card_key(id: u128) -> Seq<char> {
    "project_manager.project."@ + uuid_hyphenated(id)
}

/// `m2` holds at `k` what `m1` holds there.
pub open spec fn same_at(m1: Map<Seq<char>, Seq<char>>, m2: Map<Seq<char>, Seq<char>>, k: Seq<char>) -> bool {
    m1.dom().contains(k) == m2.dom().contains(k) && m1[k] == m2[k]
}

proof fn lemma_suffixes_distinct(k: Seq<char>)
    ensures
        forall|s1: Seq<char>, s2: Seq<char>| s1 != s2 ==> #[trigger] (k + s1) != #[trigger] (k + s2),
{
    assert forall|s1: Seq<char>, s2: Seq<char>| s1 != s2 implies #[trigger] (k + s1) != #[trigger] (k + s2) by {
        if k + s1 == k + s2 {
            assert((k + s1).subrange(k.len() as int, (k + s1).len() as int) =~= s1);
            assert((k + s2).subrange(k.len() as int, (k + s2).len() as int) =~= s2);
        }
    }
}

/// `m` shows `v` under `key`.
pub open spec fn shows(m: Map<Seq<char>, Seq<char>>, key: Seq<char>, v: Seq<char>) -> bool {
    m.dom().contains(key) && m[key] == v
}

/// Each shown field of a card lands under its own key with its value.
proof fn lemma_card_step_values(m: Map<Seq<char>, Seq<char>>, c: ProjectHealthCard)
    ensures
        ({
            let k = "project_manager.project."@ + project_id_key(c.project_id, c.project_name@);
            let m2 = pm_project_step(m, c);
            &&& shows(m2, k + ".margin_pct"@, c.margin_pct_text@)
            &&& shows(m2, k + ".project_name"@, c.project_name@)
            &&& shows(m2, k + ".status"@, c.status@)
            &&& shows(m2, k + ".end_date"@, c.end_date@)
            &&& shows(m2, k + ".total_budget_idr"@, int_text(c.total_budget_idr as int))
            &&& shows(m2, k + ".budget_spent_idr"@, int_text(c.budget_spent_idr as int))
            &&& shows(m2, k + ".gross_profit_idr"@, int_text(c.gross_profit_idr as int))
            &&& shows(m2, k + ".budget_status"@, c.budget_status@)
            &&& shows(m2, k + ".budget_remaining_idr"@, int_text(c.budget_remaining_idr as int))
            &&& shows(m2, k + ".total_revenue_idr"@, int_text(c.total_revenue_idr as int))
            &&& shows(m2, k + ".total_cost_idr"@, int_text(c.total_cost_idr as int))
            &&& shows(m2, k + ".warning"@, opt_text(c.warning))
            &&& shows(m2, k + ".margin_alert"@, opt_text(c.margin_alert))
            &&& shows(m2, k + ".budget_utilization_pct"@, c.budget_utilization_pct_text@)
            &&& shows(m2, k + ".is_over_budget"@, bool_text(c.is_over_budget))
            &&& shows(m2, k + ".budget_overrun_idr"@, int_text(c.budget_overrun_idr as int))
            &&& shows(m2, k + ".forecast_margin_pct"@, c.forecast_margin_pct_text@)
            &&& shows(m2, k + ".forecast_variance_from_target_pct"@, c.forecast_variance_from_target_pct_text@)
            &&& shows(m2, k + ".projected_total_cost_idr"@, int_text(c.projected_total_cost_idr as int))
            &&& shows(m2, k + ".forecast_unavailable"@, bool_text(c.forecast_unavailable))
            &&& shows(m2, k + ".forecast_has_revenue_signal"@, bool_text(c.forecast_has_revenue_signal))
            &&& shows(m2, k + ".health_status"@, c.health_status@)
            &&& shows(m2, k + ".target_margin_pct"@, c.target_margin_pct_text@)
            &&& shows(m2, k + ".margin_alert_threshold_pct"@, c.margin_alert_threshold_pct_text@)
        }),
{
    let k = "project_manager.project."@ + project_id_key(c.project_id, c.project_name@);
    lemma_suffixes_distinct(k);
    reveal_strlit(".margin_pct");
    reveal_strlit(".project_name");
    reveal_strlit(".status");
    reveal_strlit(".end_date");
    reveal_strlit(".total_budget_idr");
    reveal_strlit(".budget_spent_idr");
    reveal_strlit(".gross_profit_idr");
    reveal_strlit(".budget_status");
    reveal_strlit(".budget_remaining_idr");
    reveal_strlit(".total_revenue_idr");
    reveal_strlit(".total_cost_idr");
    reveal_strlit(".warning");
    reveal_strlit(".margin_alert");
    reveal_strlit(".budget_utilization_pct");
    reveal_strlit(".is_over_budget");
    reveal_strlit(".budget_overrun_idr");
    reveal_strlit(".forecast_margin_pct");
    reveal_strlit(".forecast_variance_from_target_pct");
    reveal_strlit(".projected_total_cost_idr");
    reveal_strlit(".forecast_unavailable");
    reveal_strlit(".forecast_has_revenue_signal");
    reveal_strlit(".health_status");
    reveal_strlit(".target_margin_pct");
    reveal_strlit(".margin_alert_threshold_pct");
    assert(".margin_pct"@.len() == 11);
    assert(".project_name"@.len() == 13);
    assert(".status"@.len() == 7);
    assert(".end_date"@.len() == 9);
    assert(".total_budget_idr"@.len() == 17);
    assert(".budget_spent_idr"@.len() == 17);
    assert(".gross_profit_idr"@.len() == 17);
    assert(".budget_status"@.len() == 14);
    assert(".budget_remaining_idr"@.len() == 21);
    assert(".total_revenue_idr"@.len() == 18);
    assert(".total_cost_idr"@.len() == 15);
    assert(".warning"@.len() == 8);
    assert(".margin_alert"@.len() == 13);
    assert(".budget_utilization_pct"@.len() == 23);
    assert(".is_over_budget"@.len() == 15);
    assert(".budget_overrun_idr"@.len() == 19);
    assert(".forecast_margin_pct"@.len() == 20);
    assert(".forecast_variance_from_target_pct"@.len() == 34);
    assert(".projected_total_cost_idr"@.len() == 25);
    assert(".forecast_unavailable"@.len() == 21);
    assert(".forecast_has_revenue_signal"@.len() == 28);
    assert(".health_status"@.len() == 14);
    assert(".target_margin_pct"@.len() == 18);
    assert(".margin_alert_threshold_pct"@.len() == 27);
    assert(".margin_alert"@[1] == 'm' && ".project_name"@[1] == 'p');
    assert(".budget_spent_idr"@[1] == 'b' && ".total_budget_idr"@[1] == 't');
    assert(".budget_spent_idr"@[1] == 'b' && ".gross_profit_idr"@[1] == 'g');
    assert(".gross_profit_idr"@[1] == 'g' && ".total_budget_idr"@[1] == 't');
    assert(".budget_status"@[1] == 'b' && ".health_status"@[1] == 'h');
    assert(".budget_remaining_idr"@[1] == 'b' && ".forecast_unavailable"@[1] == 'f');
    assert(".target_margin_pct"@[2] == 'a' && ".total_revenue_idr"@[2] == 'o');
    assert(".is_over_budget"@[1] == 'i' && ".total_cost_idr"@[1] == 't');
}

/// A fold whose every step leaves `k` alone leaves `k` alone.
proof fn lemma_fold_leaves<T>(
    m: Map<Seq<char>, Seq<char>>,
    rows: Seq<T>,
    step: spec_fn(Map<Seq<char>, Seq<char>>, T) -> Map<Seq<char>, Seq<char>>,
    k: Seq<char>,
)
    requires
        forall|mm: Map<Seq<char>, Seq<char>>, r: T| #[trigger] same_at(step(mm, r), mm, k),
    ensures
        same_at(fold_rows(m, rows, step), m, k),
    decreases rows.len(),
{
    if rows.len() > 0 {
        lemma_fold_leaves(m, rows.drop_last(), step, k);
        assert(same_at(step(fold_rows(m, rows.drop_last(), step), rows.last()), fold_rows(m, rows.drop_last(), step), k));
    }
}

/// The finance entries only use keys that start with `f`.
proof fn lemma_finance_leaves(m: Map<Seq<char>, Seq<char>>, f: FinanceDashboard, k: Seq<char>)
    requires
        k.len() > 0,
        k[0] == 'p',
    ensures
        same_at(finance_entries(m, f), m, k),
{
    reveal_strlit("finance.cash_position.ending_cumulative_position_idr");
    reveal_strlit("finance.cash_position.net_cash_flow_idr");
    reveal_strlit("finance.cash_position.total_cash_in_idr");
    reveal_strlit("finance.cash_position.total_cash_out_idr");
    reveal_strlit("finance.ctc_validation.status");
    reveal_strlit("finance.ctc_validation.match_rate_pct");
    reveal_strlit("finance.ctc_validation.total_compared");
    reveal_strlit("finance.ctc_validation.total_matches");
    reveal_strlit("finance.ctc_validation.total_discrepancies");
    reveal_strlit("finance.audit_alerts.total");
    reveal_strlit("finance.audit_alerts.access_denied_count");
    reveal_strlit("finance.audit_alerts.login_failed_count");
    reveal_strlit("finance.audit_alerts.login_blocked_count");
    reveal_strlit("finance.audit_alerts.chain_verification_failure_count");
    reveal_strlit("finance.export_requests.pending_count");
    reveal_strlit("finance.audit_alerts.recent.");
    reveal_strlit("finance.export_requests.latest.");
    assert forall|mm: Map<Seq<char>, Seq<char>>, e: crate::dashboard::AuditAlertEntry| #[trigger] same_at(fin_recent_stepper()(mm, e), mm, k) by {
        assert(crate::dashboard::id_or_name("finance.audit_alerts.recent."@, e.id, "finance.audit_alerts.recent."@,
            crate::dashboard::pipe3(e.action@, e.entity_type@, e.created_at@))[0] == 'f');
    }
    assert forall|mm: Map<Seq<char>, Seq<char>>, p: crate::dashboard::PendingExportRequest| #[trigger] same_at(fin_pending_stepper()(mm, p), mm, k) by {
        assert(crate::dashboard::id_or_name("finance.export_requests.latest."@, p.id, "finance.export_requests.latest."@,
            crate::dashboard::pipe2(p.status@, p.created_at@))[0] == 'f');
    }
    let ms = m.insert("finance.cash_position.ending_cumulative_position_idr"@, int_text(f.cash_position.ending_cumulative_position_idr as int))
        .insert("finance.cash_position.net_cash_flow_idr"@, int_text(f.cash_position.net_cash_flow_idr as int))
        .insert("finance.cash_position.total_cash_in_idr"@, int_text(f.cash_position.total_cash_in_idr as int))
        .insert("finance.cash_position.total_cash_out_idr"@, int_text(f.cash_position.total_cash_out_idr as int))
        .insert("finance.ctc_validation.status"@, f.ctc_validation.status@)
        .insert("finance.ctc_validation.match_rate_pct"@, match f.ctc_validation.match_rate_pct_text {
            Some(t) => t@,
            None => "none"@,
        })
        .insert("finance.ctc_validation.total_compared"@, crate::dashboard::opt_count_text(f.ctc_validation.total_compared))
        .insert("finance.ctc_validation.total_matches"@, crate::dashboard::opt_count_text(f.ctc_validation.total_matches))
        .insert("finance.ctc_validation.total_discrepancies"@, crate::dashboard::opt_count_text(f.ctc_validation.total_discrepancies))
        .insert("finance.audit_alerts.total"@, int_text(crate::dashboard::audit_alert_total(f.audit_alerts)))
        .insert("finance.audit_alerts.access_denied_count"@, int_text(f.audit_alerts.access_denied_count as int))
        .insert("finance.audit_alerts.login_failed_count"@, int_text(f.audit_alerts.login_failed_count as int))
        .insert("finance.audit_alerts.login_blocked_count"@, int_text(f.audit_alerts.login_blocked_count as int))
        .insert("finance.audit_alerts.chain_verification_failure_count"@, int_text(f.audit_alerts.chain_verification_failure_count as int))
        .insert("finance.export_requests.pending_count"@, int_text(f.export_requests.pending_count as int));
    assert(same_at(ms, m, k));
    lemma_fold_leaves(ms, f.audit_alerts.recent@, fin_recent_stepper(), k);
    let m2 = fold_rows(ms, f.audit_alerts.recent@, fin_recent_stepper());
    lemma_fold_leaves(m2, f.export_requests.latest_pending@, fin_pending_stepper(), k);
}

/// The admin entries only use keys that start with `a`.
proof fn lemma_admin_leaves(m: Map<Seq<char>, Seq<char>>, a: AdminDashboard, k: Seq<char>)
    requires
        k.len() > 0,
        k[0] != 'a',
    ensures
        same_at(admin_entries(m, a), m, k),
{
    reveal_strlit("admin.total_users");
    reveal_strlit("admin.total_departments");
    reveal_strlit("admin.total_active_projects");
    reveal_strlit("admin.total_active_ctc_records");
    reveal_strlit("admin.pending_export_requests");
    reveal_strlit("admin.access_denied_24h");
}

/// The margin-alert rows use keys under `project_manager.margin_alert.`.
proof fn lemma_alerts_leave(m: Map<Seq<char>, Seq<char>>, alerts: Seq<MarginAlert>, k: Seq<char>)
    requires
        k.len() > 16,
        k[16] == 'p',
    ensures
        same_at(fold_rows(m, alerts, pm_alert_stepper()), m, k),
{
    reveal_strlit("project_manager.margin_alert.");
    assert forall|mm: Map<Seq<char>, Seq<char>>, a: MarginAlert| #[trigger] same_at(pm_alert_stepper()(mm, a), mm, k) by {
        assert(("project_manager.margin_alert."@ + project_id_key(a.project_id, a.project_name@))[16] == 'm');
    }
    lemma_fold_leaves(m, alerts, pm_alert_stepper(), k);
}

/// When two snapshots differ only in the shown fields of their one project
/// card, and the card keeps its project id, each of the card's shown fields
/// is highlighted exactly when its shown value changed: a change of the
/// margin highlights the margin and nothing else of the card.
pub proof fn law_card_field_changes(a: RoleDashboardResponse, b: RoleDashboardResponse, id: u128)
    requires
        a.hr == b.hr,
        a.department_head == b.department_head,
        a.finance == b.finance,
        a.admin == b.admin,
        a.project_manager is Some,
        b.project_manager is Some,
        a.project_manager.unwrap().active_projects@.len() == 1,
        b.project_manager.unwrap().active_projects@.len() == 1,
        a.project_manager.unwrap().margin_alerts@ == b.project_manager.unwrap().margin_alerts@,
        a.project_manager.unwrap().active_projects@[0].project_id == Some(id),
        b.project_manager.unwrap().active_projects@[0].project_id == Some(id),
    ensures
        forall|i: int| 0 <= i < 24 ==> (#[trigger] changed_keys_spec(dashboard_values(a), dashboard_values(b))
            .contains(project_card_key(id) + card_suffix(i))
            <==> card_value(a.project_manager.unwrap().active_projects@[0], i)
                != card_value(b.project_manager.unwrap().active_projects@[0], i)),
{
    let pa = a.project_manager.unwrap();
    let pb = b.project_manager.unwrap();
    let ca = pa.active_projects@[0];
    let cb = pb.active_projects@[0];
    let m0 = Map::<Seq<char>, Seq<char>>::empty();
    let m1 = match a.hr { Some(hr) => crate::dashboard::hr_entries(m0, hr), None => m0 };
    let m2 = match a.department_head { Some(dh) => crate::dashboard::dh_entries(m1, dh), None => m1 };
    let mc = m2.insert("project_manager.active_projects.count"@, int_text(1))
        .insert("project_manager.margin_alerts.count"@, int_text(pa.margin_alerts@.len() as int));
    reveal_with_fuel(fold_rows, 2);
    assert(pa.active_projects@.drop_last().len() == 0);
    assert(pb.active_projects@.drop_last().len() == 0);
    let sa = pm_project_step(mc, ca);
    let sb = pm_project_step(mc, cb);
    assert(fold_rows(mc, pa.active_projects@, pm_project_stepper()) == sa);
    assert(fold_rows(mc, pb.active_projects@, pm_project_stepper()) == sb);
    lemma_card_step_values(mc, ca);
    lemma_card_step_values(mc, cb);
    assert(Seq::<char>::empty() + uuid_hyphenated(id) =~= uuid_hyphenated(id));
    reveal_strlit("project_manager.project.");
    assert forall|i: int| 0 <= i < 24 implies (#[trigger] changed_keys_spec(dashboard_values(a), dashboard_values(b))
            .contains(project_card_key(id) + card_suffix(i))
            <==> card_value(ca, i) != card_value(cb, i)) by {
        let key = project_card_key(id) + card_suffix(i);
        assert(key[0] == 'p' && key[16] == 'p');
        assert(shows(sa, key, card_value(ca, i)));
        assert(shows(sb, key, card_value(cb, i)));
        lemma_alerts_leave(sa, pa.margin_alerts@, key);
        lemma_alerts_leave(sb, pb.margin_alerts@, key);
        let pma = pm_entries(m2, pa);
        let pmb = pm_entries(m2, pb);
        let fa = match a.finance { Some(f) => finance_entries(pma, f), None => pma };
        let fb = match b.finance { Some(f) => finance_entries(pmb, f), None => pmb };
        match a.finance {
            Some(f) => {
                lemma_finance_leaves(pma, f, key);
                lemma_finance_leaves(pmb, f, key);
            },
            None => {},
        }
        match a.admin {
            Some(ad) => {
                lemma_admin_leaves(fa, ad, key);
                lemma_admin_leaves(fb, ad, key);
            },
            None => {},
        }
    }
}

/// Both rows carry an id, the same one.
pub open spec fn same_id(a: Option<u128>, b: Option<u128>) -> bool {
    a is Some && a == b
}

/// The two lists have the same length and their rows match one for one.
pub open spec fn rows_match<T>(r1: Seq<T>, r2: Seq<T>, same: spec_fn(T, T) -> bool) -> bool {
    r1.len() == r2.len() && forall|i: int| 0 <= i < r1.len() ==> #[trigger] same(r1[i], r2[i])
}

/// Two revisions of the same resource with the same number and time.
pub open spec fn same_revision(c1: RecentCtcChange, c2: RecentCtcChange) -> bool {
    same_id(c1.resource_id, c2.resource_id) && c1.revision_number == c2.revision_number && c1.created_at@ == c2.created_at@
}

/// Trend rows of the same member over the same periods.
pub open spec fn same_trend_row(t1: TeamUtilizationTrend, t2: TeamUtilizationTrend) -> bool {
    same_id(t1.resource_id, t2.resource_id)
        && rows_match(t1.periods@, t2.periods@, |p1: crate::dashboard::TeamUtilizationTrendPeriod, p2: crate::dashboard::TeamUtilizationTrendPeriod| p1.period@ == p2.period@)
}

/// The keyed rows of two HR sections carry the same ids.
pub open spec fn hr_rows_match(h1: HrDashboard, h2: HrDashboard) -> bool {
    &&& rows_match(h1.recent_changes@, h2.recent_changes@, |c1: RecentCtcChange, c2: RecentCtcChange| same_revision(c1, c2))
    &&& rows_match(h1.pending_updates.sample@, h2.pending_updates.sample@,
        |e1: crate::dashboard::HrMissingEmployee, e2: crate::dashboard::HrMissingEmployee| same_id(e1.id, e2.id))
    &&& rows_match(h1.compliance_alerts.top_risks@, h2.compliance_alerts.top_risks@,
        |r1: crate::dashboard::ComplianceTopRisk, r2: crate::dashboard::ComplianceTopRisk| same_id(r1.resource_id, r2.resource_id))
}

/// The keyed rows of two department-head sections carry the same ids.
pub open spec fn dh_rows_match(d1: DepartmentHeadDashboard, d2: DepartmentHeadDashboard) -> bool {
    &&& rows_match(d1.utilization.top_at_risk@, d2.utilization.top_at_risk@,
        |r1: crate::dashboard::UtilizationAtRisk, r2: crate::dashboard::UtilizationAtRisk| same_id(r1.resource_id, r2.resource_id))
    &&& rows_match(d1.overallocations.members@, d2.overallocations.members@,
        |r1: crate::dashboard::UtilizationAtRisk, r2: crate::dashboard::UtilizationAtRisk| same_id(r1.resource_id, r2.resource_id))
    &&& rows_match(d1.upcoming_assignments@, d2.upcoming_assignments@,
        |a1: crate::dashboard::UpcomingAssignment, a2: crate::dashboard::UpcomingAssignment| same_id(a1.allocation_id, a2.allocation_id))
    &&& rows_match(d1.team_members@, d2.team_members@,
        |t1: crate::dashboard::TeamUtilizationMember, t2: crate::dashboard::TeamUtilizationMember| same_id(t1.resource_id, t2.resource_id))
    &&& d1.budget is Some == d2.budget is Some
    &&& match (d1.utilization_trends, d2.utilization_trends) {
        (Some(t1), Some(t2)) => rows_match(t1.members@, t2.members@, |x: TeamUtilizationTrend, y: TeamUtilizationTrend| same_trend_row(x, y)),
        (None, None) => true,
        _ => false,
    }
}

/// The keyed rows of two project-manager sections carry the same ids.
pub open spec fn pm_rows_match(p1: ProjectManagerDashboard, p2: ProjectManagerDashboard) -> bool {
    &&& rows_match(p1.active_projects@, p2.active_projects@, |c1: ProjectHealthCard, c2: ProjectHealthCard| same_id(c1.project_id, c2.project_id))
    &&& rows_match(p1.margin_alerts@, p2.margin_alerts@, |a1: MarginAlert, a2: MarginAlert| same_id(a1.project_id, a2.project_id))
}

/// The keyed rows of two finance sections carry the same ids.
pub open spec fn finance_rows_match(f1: FinanceDashboard, f2: FinanceDashboard) -> bool {
    &&& rows_match(f1.audit_alerts.recent@, f2.audit_alerts.recent@,
        |e1: crate::dashboard::AuditAlertEntry, e2: crate::dashboard::AuditAlertEntry| same_id(e1.id, e2.id))
    &&& rows_match(f1.export_requests.latest_pending@, f2.export_requests.latest_pending@,
        |q1: crate::dashboard::PendingExportRequest, q2: crate::dashboard::PendingExportRequest| same_id(q1.id, q2.id))
}

/// Both present and related, or both absent.
pub open spec fn both_or_neither<T>(a: Option<T>, b: Option<T>, rel: spec_fn(T, T) -> bool) -> bool {
    match (a, b) {
        (Some(x), Some(y)) => rel(x, y),
        (None, None) => true,
        _ => false,
    }
}

/// Folding rows whose keys match, one for one, into maps with the same keys
/// gives maps with the same keys.
proof fn lemma_fold_same_keys<T>(
    m1: Map<Seq<char>, Seq<char>>,
    m2: Map<Seq<char>, Seq<char>>,
    rows1: Seq<T>,
    rows2: Seq<T>,
    step: spec_fn(Map<Seq<char>, Seq<char>>, T) -> Map<Seq<char>, Seq<char>>,
    same: spec_fn(T, T) -> bool,
)
    requires
        m1.dom() == m2.dom(),
        rows_match(rows1, rows2, same),
        forall|mm1: Map<Seq<char>, Seq<char>>, mm2: Map<Seq<char>, Seq<char>>, r1: T, r2: T|
            mm1.dom() == mm2.dom() && same(r1, r2) ==> #[trigger] step(mm1, r1).dom() == #[trigger] step(mm2, r2).dom(),
    ensures
        fold_rows(m1, rows1, step).dom() == fold_rows(m2, rows2, step).dom(),
{
    lemma_fold_same_keys_two(m1, m2, rows1, rows2, step, step, same);
}

proof fn lemma_hr_same_keys(m1: Map<Seq<char>, Seq<char>>, m2: Map<Seq<char>, Seq<char>>, h1: HrDashboard, h2: HrDashboard)
    requires
        m1.dom() == m2.dom(),
        hr_rows_match(h1, h2),
    ensures
        hr_entries(m1, h1).dom() == hr_entries(m2, h2).dom(),
{
    let s1 = crate::dashboard::hr_scalars(m1, h1);
    let s2 = crate::dashboard::hr_scalars(m2, h2);
    lemma_fold_same_keys(s1, s2, h1.recent_changes@, h2.recent_changes@, hr_recent_stepper(),
        |c1: RecentCtcChange, c2: RecentCtcChange| same_revision(c1, c2));
    let r1 = fold_rows(s1, h1.recent_changes@, hr_recent_stepper());
    let r2 = fold_rows(s2, h2.recent_changes@, hr_recent_stepper());
    lemma_fold_same_keys(r1, r2, h1.pending_updates.sample@, h2.pending_updates.sample@, hr_sample_stepper(),
        |e1: crate::dashboard::HrMissingEmployee, e2: crate::dashboard::HrMissingEmployee| same_id(e1.id, e2.id));
    let t1 = fold_rows(r1, h1.pending_updates.sample@, hr_sample_stepper());
    let t2 = fold_rows(r2, h2.pending_updates.sample@, hr_sample_stepper());
    lemma_fold_same_keys(t1, t2, h1.compliance_alerts.top_risks@, h2.compliance_alerts.top_risks@, hr_risk_stepper(),
        |r1: crate::dashboard::ComplianceTopRisk, r2: crate::dashboard::ComplianceTopRisk| same_id(r1.resource_id, r2.resource_id));
}

proof fn lemma_dh_same_keys(m1: Map<Seq<char>, Seq<char>>, m2: Map<Seq<char>, Seq<char>>, d1: DepartmentHeadDashboard, d2: DepartmentHeadDashboard)
    requires
        m1.dom() == m2.dom(),
        dh_rows_match(d1, d2),
    ensures
        dh_entries(m1, d1).dom() == dh_entries(m2, d2).dom(),
{
    let a1 = m1.insert("department_head.utilization.average_utilization_pct"@, d1.utilization.average_utilization_pct_text@)
        .insert("department_head.utilization.overallocated_count"@, int_text(d1.utilization.overallocated_count as int))
        .insert("department_head.overallocations.overallocated_count"@, int_text(d1.overallocations.overallocated_count as int));
    let a2 = m2.insert("department_head.utilization.average_utilization_pct"@, d2.utilization.average_utilization_pct_text@)
        .insert("department_head.utilization.overallocated_count"@, int_text(d2.utilization.overallocated_count as int))
        .insert("department_head.overallocations.overallocated_count"@, int_text(d2.overallocations.overallocated_count as int));
    let b1 = crate::dashboard::dh_budget_summary(a1, d1.budget);
    let b2 = crate::dashboard::dh_budget_summary(a2, d2.budget);
    assert(b1.dom() == b2.dom());
    lemma_fold_same_keys(b1, b2, d1.utilization.top_at_risk@, d2.utilization.top_at_risk@, dh_top_at_risk_stepper(),
        |r1: crate::dashboard::UtilizationAtRisk, r2: crate::dashboard::UtilizationAtRisk| same_id(r1.resource_id, r2.resource_id));
    let c1 = fold_rows(b1, d1.utilization.top_at_risk@, dh_top_at_risk_stepper());
    let c2 = fold_rows(b2, d2.utilization.top_at_risk@, dh_top_at_risk_stepper());
    lemma_fold_same_keys(c1, c2, d1.overallocations.members@, d2.overallocations.members@, dh_overalloc_stepper(),
        |r1: crate::dashboard::UtilizationAtRisk, r2: crate::dashboard::UtilizationAtRisk| same_id(r1.resource_id, r2.resource_id));
    let e1 = fold_rows(c1, d1.overallocations.members@, dh_overalloc_stepper());
    let e2 = fold_rows(c2, d2.overallocations.members@, dh_overalloc_stepper());
    lemma_fold_same_keys(e1, e2, d1.upcoming_assignments@, d2.upcoming_assignments@, dh_upcoming_stepper(),
        |x1: crate::dashboard::UpcomingAssignment, x2: crate::dashboard::UpcomingAssignment| same_id(x1.allocation_id, x2.allocation_id));
    let g1 = fold_rows(e1, d1.upcoming_assignments@, dh_upcoming_stepper())
        .insert("department_head.team.member_count"@, int_text(d1.team_members@.len() as int))
        .insert("department_head.team.underutilized_count"@, int_text(crate::dashboard::underutilized_count(d1.team_members@) as int))
        .insert("department_head.team.avg_available_capacity_pct"@, d1.avg_available_capacity_pct_text@);
    let g2 = fold_rows(e2, d2.upcoming_assignments@, dh_upcoming_stepper())
        .insert("department_head.team.member_count"@, int_text(d2.team_members@.len() as int))
        .insert("department_head.team.underutilized_count"@, int_text(crate::dashboard::underutilized_count(d2.team_members@) as int))
        .insert("department_head.team.avg_available_capacity_pct"@, d2.avg_available_capacity_pct_text@);
    lemma_fold_same_keys(g1, g2, d1.team_members@, d2.team_members@, dh_member_stepper(),
        |t1: crate::dashboard::TeamUtilizationMember, t2: crate::dashboard::TeamUtilizationMember| same_id(t1.resource_id, t2.resource_id));
    let h1 = fold_rows(g1, d1.team_members@, dh_member_stepper());
    let h2 = fold_rows(g2, d2.team_members@, dh_member_stepper());
    match (d1.utilization_trends, d2.utilization_trends) {
        (Some(t1), Some(t2)) => {
            assert forall|mm1: Map<Seq<char>, Seq<char>>, mm2: Map<Seq<char>, Seq<char>>, x: TeamUtilizationTrend, y: TeamUtilizationTrend|
                mm1.dom() == mm2.dom() && same_trend_row(x, y) implies
                #[trigger] dh_trend_member_stepper()(mm1, x).dom() == #[trigger] dh_trend_member_stepper()(mm2, y).dom() by {
                assert forall|n1: Map<Seq<char>, Seq<char>>, n2: Map<Seq<char>, Seq<char>>,
                    p1: crate::dashboard::TeamUtilizationTrendPeriod, p2: crate::dashboard::TeamUtilizationTrendPeriod|
                    n1.dom() == n2.dom() && (p1.period@ == p2.period@) implies
                    #[trigger] dh_period_stepper(x)(n1, p1).dom() == #[trigger] dh_period_stepper(y)(n2, p2).dom() by {
                    assert(crate::dashboard::trend_period_key_spec(x, p1.period@) == crate::dashboard::trend_period_key_spec(y, p2.period@));
                }
                lemma_fold_same_keys_two(mm1, mm2, x.periods@, y.periods@, dh_period_stepper(x), dh_period_stepper(y),
                    |q1: crate::dashboard::TeamUtilizationTrendPeriod, q2: crate::dashboard::TeamUtilizationTrendPeriod| q1.period@ == q2.period@);
            }
            lemma_fold_same_keys(h1, h2, t1.members@, t2.members@, dh_trend_member_stepper(),
                |x: TeamUtilizationTrend, y: TeamUtilizationTrend| same_trend_row(x, y));
        },
        _ => {},
    }
}

/// As `lemma_fold_same_keys`, with a step of its own for each list.
proof fn lemma_fold_same_keys_two<T>(
    m1: Map<Seq<char>, Seq<char>>,
    m2: Map<Seq<char>, Seq<char>>,
    rows1: Seq<T>,
    rows2: Seq<T>,
    step1: spec_fn(Map<Seq<char>, Seq<char>>, T) -> Map<Seq<char>, Seq<char>>,
    step2: spec_fn(Map<Seq<char>, Seq<char>>, T) -> Map<Seq<char>, Seq<char>>,
    same: spec_fn(T, T) -> bool,
)
    requires
        m1.dom() == m2.dom(),
        rows_match(rows1, rows2, same),
        forall|mm1: Map<Seq<char>, Seq<char>>, mm2: Map<Seq<char>, Seq<char>>, r1: T, r2: T|
            mm1.dom() == mm2.dom() && same(r1, r2) ==> #[trigger] step1(mm1, r1).dom() == #[trigger] step2(mm2, r2).dom(),
    ensures
        fold_rows(m1, rows1, step1).dom() == fold_rows(m2, rows2, step2).dom(),
    decreases rows1.len(),
{
    if rows1.len() > 0 {
        let n = rows1.len() - 1;
        assert(same(rows1[n], rows2[n]));
        assert forall|i: int| 0 <= i < rows1.drop_last().len() implies #[trigger] same(rows1.drop_last()[i], rows2.drop_last()[i]) by {
            assert(same(rows1[i], rows2[i]));
        }
        lemma_fold_same_keys_two(m1, m2, rows1.drop_last(), rows2.drop_last(), step1, step2, same);
    }
}

proof fn lemma_pm_same_keys(m1: Map<Seq<char>, Seq<char>>, m2: Map<Seq<char>, Seq<char>>, p1: ProjectManagerDashboard, p2: ProjectManagerDashboard)
    requires
        m1.dom() == m2.dom(),
        pm_rows_match(p1, p2),
    ensures
        pm_entries(m1, p1).dom() == pm_entries(m2, p2).dom(),
{
    let a1 = m1.insert("project_manager.active_projects.count"@, int_text(p1.active_projects@.len() as int))
        .insert("project_manager.margin_alerts.count"@, int_text(p1.margin_alerts@.len() as int));
    let a2 = m2.insert("project_manager.active_projects.count"@, int_text(p2.active_projects@.len() as int))
        .insert("project_manager.margin_alerts.count"@, int_text(p2.margin_alerts@.len() as int));
    assert forall|mm1: Map<Seq<char>, Seq<char>>, mm2: Map<Seq<char>, Seq<char>>, c1: ProjectHealthCard, c2: ProjectHealthCard|
        mm1.dom() == mm2.dom() && same_id(c1.project_id, c2.project_id) implies
        #[trigger] pm_project_stepper()(mm1, c1).dom() == #[trigger] pm_project_stepper()(mm2, c2).dom() by {
        assert(project_id_key(c1.project_id, c1.project_name@) == project_id_key(c2.project_id, c2.project_name@));
    }
    lemma_fold_same_keys(a1, a2, p1.active_projects@, p2.active_projects@, pm_project_stepper(),
        |c1: ProjectHealthCard, c2: ProjectHealthCard| same_id(c1.project_id, c2.project_id));
    lemma_fold_same_keys(fold_rows(a1, p1.active_projects@, pm_project_stepper()), fold_rows(a2, p2.active_projects@, pm_project_stepper()),
        p1.margin_alerts@, p2.margin_alerts@, pm_alert_stepper(), |x1: MarginAlert, x2: MarginAlert| same_id(x1.project_id, x2.project_id));
}

proof fn lemma_finance_same_keys(m1: Map<Seq<char>, Seq<char>>, m2: Map<Seq<char>, Seq<char>>, f1: FinanceDashboard, f2: FinanceDashboard)
    requires
        m1.dom() == m2.dom(),
        finance_rows_match(f1, f2),
    ensures
        finance_entries(m1, f1).dom() == finance_entries(m2, f2).dom(),
{
    let a1 = m1.insert("finance.cash_position.ending_cumulative_position_idr"@, int_text(f1.cash_position.ending_cumulative_position_idr as int))
        .insert("finance.cash_position.net_cash_flow_idr"@, int_text(f1.cash_position.net_cash_flow_idr as int))
        .insert("finance.cash_position.total_cash_in_idr"@, int_text(f1.cash_position.total_cash_in_idr as int))
        .insert("finance.cash_position.total_cash_out_idr"@, int_text(f1.cash_position.total_cash_out_idr as int))
        .insert("finance.ctc_validation.status"@, f1.ctc_validation.status@)
        .insert("finance.ctc_validation.match_rate_pct"@, match f1.ctc_validation.match_rate_pct_text {
            Some(t) => t@,
            None => "none"@,
        })
        .insert("finance.ctc_validation.total_compared"@, crate::dashboard::opt_count_text(f1.ctc_validation.total_compared))
        .insert("finance.ctc_validation.total_matches"@, crate::dashboard::opt_count_text(f1.ctc_validation.total_matches))
        .insert("finance.ctc_validation.total_discrepancies"@, crate::dashboard::opt_count_text(f1.ctc_validation.total_discrepancies))
        .insert("finance.audit_alerts.total"@, int_text(crate::dashboard::audit_alert_total(f1.audit_alerts)))
        .insert("finance.audit_alerts.access_denied_count"@, int_text(f1.audit_alerts.access_denied_count as int))
        .insert("finance.audit_alerts.login_failed_count"@, int_text(f1.audit_alerts.login_failed_count as int))
        .insert("finance.audit_alerts.login_blocked_count"@, int_text(f1.audit_alerts.login_blocked_count as int))
        .insert("finance.audit_alerts.chain_verification_failure_count"@, int_text(f1.audit_alerts.chain_verification_failure_count as int))
        .insert("finance.export_requests.pending_count"@, int_text(f1.export_requests.pending_count as int));
    let a2 = m2.insert("finance.cash_position.ending_cumulative_position_idr"@, int_text(f2.cash_position.ending_cumulative_position_idr as int))
        .insert("finance.cash_position.net_cash_flow_idr"@, int_text(f2.cash_position.net_cash_flow_idr as int))
        .insert("finance.cash_position.total_cash_in_idr"@, int_text(f2.cash_position.total_cash_in_idr as int))
        .insert("finance.cash_position.total_cash_out_idr"@, int_text(f2.cash_position.total_cash_out_idr as int))
        .insert("finance.ctc_validation.status"@, f2.ctc_validation.status@)
        .insert("finance.ctc_validation.match_rate_pct"@, match f2.ctc_validation.match_rate_pct_text {
            Some(t) => t@,
            None => "none"@,
        })
        .insert("finance.ctc_validation.total_compared"@, crate::dashboard::opt_count_text(f2.ctc_validation.total_compared))
        .insert("finance.ctc_validation.total_matches"@, crate::dashboard::opt_count_text(f2.ctc_validation.total_matches))
        .insert("finance.ctc_validation.total_discrepancies"@, crate::dashboard::opt_count_text(f2.ctc_validation.total_discrepancies))
        .insert("finance.audit_alerts.total"@, int_text(crate::dashboard::audit_alert_total(f2.audit_alerts)))
        .insert("finance.audit_alerts.access_denied_count"@, int_text(f2.audit_alerts.access_denied_count as int))
        .insert("finance.audit_alerts.login_failed_count"@, int_text(f2.audit_alerts.login_failed_count as int))
        .insert("finance.audit_alerts.login_blocked_count"@, int_text(f2.audit_alerts.login_blocked_count as int))
        .insert("finance.audit_alerts.chain_verification_failure_count"@, int_text(f2.audit_alerts.chain_verification_failure_count as int))
        .insert("finance.export_requests.pending_count"@, int_text(f2.export_requests.pending_count as int));
    lemma_fold_same_keys(a1, a2, f1.audit_alerts.recent@, f2.audit_alerts.recent@, fin_recent_stepper(),
        |e1: crate::dashboard::AuditAlertEntry, e2: crate::dashboard::AuditAlertEntry| same_id(e1.id, e2.id));
    lemma_fold_same_keys(fold_rows(a1, f1.audit_alerts.recent@, fin_recent_stepper()), fold_rows(a2, f2.audit_alerts.recent@, fin_recent_stepper()),
        f1.export_requests.latest_pending@, f2.export_requests.latest_pending@, fin_pending_stepper(),
        |q1: crate::dashboard::PendingExportRequest, q2: crate::dashboard::PendingExportRequest| same_id(q1.id, q2.id));
}

/// Row keys come from ids: when every keyed row of two snapshots carries an
/// id, and the rows match one for one (same ids, and for a revision the same
/// number and time, for a trend row the same periods), the two value maps
/// have the same keys whatever the names, so renaming a row never moves its
/// highlighting to a name-based key.
pub proof fn law_id_keyed_rows_keep_their_keys(a: RoleDashboardResponse, b: RoleDashboardResponse)
    requires
        both_or_neither(a.hr, b.hr, |x: HrDashboard, y: HrDashboard| hr_rows_match(x, y)),
        both_or_neither(a.department_head, b.department_head, |x: DepartmentHeadDashboard, y: DepartmentHeadDashboard| dh_rows_match(x, y)),
        both_or_neither(a.project_manager, b.project_manager, |x: ProjectManagerDashboard, y: ProjectManagerDashboard| pm_rows_match(x, y)),
        both_or_neither(a.finance, b.finance, |x: FinanceDashboard, y: FinanceDashboard| finance_rows_match(x, y)),
        a.admin is Some == b.admin is Some,
    ensures
        dashboard_values(a).dom() == dashboard_values(b).dom(),
{
    let m0 = Map::<Seq<char>, Seq<char>>::empty();
    let h1 = match a.hr { Some(hr) => hr_entries(m0, hr), None => m0 };
    let h2 = match b.hr { Some(hr) => hr_entries(m0, hr), None => m0 };
    match (a.hr, b.hr) { (Some(x), Some(y)) => lemma_hr_same_keys(m0, m0, x, y), _ => {} }
    let d1 = match a.department_head { Some(dh) => dh_entries(h1, dh), None => h1 };
    let d2 = match b.department_head { Some(dh) => dh_entries(h2, dh), None => h2 };
    match (a.department_head, b.department_head) { (Some(x), Some(y)) => lemma_dh_same_keys(h1, h2, x, y), _ => {} }
    let p1 = match a.project_manager { Some(pm) => pm_entries(d1, pm), None => d1 };
    let p2 = match b.project_manager { Some(pm) => pm_entries(d2, pm), None => d2 };
    match (a.project_manager, b.project_manager) { (Some(x), Some(y)) => lemma_pm_same_keys(d1, d2, x, y), _ => {} }
    let f1 = match a.finance { Some(f) => finance_entries(p1, f), None => p1 };
    let f2 = match b.finance { Some(f) => finance_entries(p2, f), None => p2 };
    match (a.finance, b.finance) { (Some(x), Some(y)) => lemma_finance_same_keys(p1, p2, x, y), _ => {} }
    match (a.admin, b.admin) {
        (Some(x), Some(y)) => { assert(admin_entries(f1, x).dom() == admin_entries(f2, y).dom()); },
        _ => {},
    }
}

/// Folding rows that give the same entries, one for one, gives the same map.
proof fn lemma_fold_same_entries<T>(
    m: Map<Seq<char>, Seq<char>>,
    rows1: Seq<T>,
    rows2: Seq<T>,
    step: spec_fn(Map<Seq<char>, Seq<char>>, T) -> Map<Seq<char>, Seq<char>>,
    same: spec_fn(T, T) -> bool,
)
    requires
        rows_match(rows1, rows2, same),
        forall|mm: Map<Seq<char>, Seq<char>>, r1: T, r2: T| same(r1, r2) ==> #[trigger] step(mm, r1) == #[trigger] step(mm, r2),
    ensures
        fold_rows(m, rows1, step) == fold_rows(m, rows2, step),
    decreases rows1.len(),
{
    if rows1.len() > 0 {
        let n = rows1.len() - 1;
        assert(same(rows1[n], rows2[n]));
        assert forall|i: int| 0 <= i < rows1.drop_last().len() implies #[trigger] same(rows1.drop_last()[i], rows2.drop_last()[i]) by {
            assert(same(rows1[i], rows2[i]));
        }
        lemma_fold_same_entries(m, rows1.drop_last(), rows2.drop_last(), step, same);
    }
}

/// Two revisions that differ at most in their free-text reason.
pub open spec fn same_but_reason(c1: RecentCtcChange, c2: RecentCtcChange) -> bool {
    &&& c1.resource_id == c2.resource_id
    &&& c1.resource_name@ == c2.resource_name@
    &&& c1.revision_number == c2.revision_number
    &&& c1.changed_by_name == c2.changed_by_name
    &&& c1.created_at@ == c2.created_at@
}

/// The value map carries nothing of a CTC revision but who was changed, by
/// whom, which revision and when: two snapshots whose revisions differ only
/// in their free-text reason have the same value map, so the reason (the one
/// free text of the CTC payload) never reaches the highlighting.
pub proof fn law_revision_reason_is_not_shown(a: RoleDashboardResponse, b: RoleDashboardResponse)
    requires
        a.department_head == b.department_head,
        a.project_manager == b.project_manager,
        a.finance == b.finance,
        a.admin == b.admin,
        both_or_neither(a.hr, b.hr, |x: HrDashboard, y: HrDashboard|
            x.completeness == y.completeness
            && x.pending_updates == y.pending_updates
            && x.compliance_alerts == y.compliance_alerts
            && rows_match(x.recent_changes@, y.recent_changes@, |c1: RecentCtcChange, c2: RecentCtcChange| same_but_reason(c1, c2))),
    ensures
        dashboard_values(a) == dashboard_values(b),
{
    let m0 = Map::<Seq<char>, Seq<char>>::empty();
    match (a.hr, b.hr) {
        (Some(x), Some(y)) => {
            let s = crate::dashboard::hr_scalars(m0, x);
            assert(s == crate::dashboard::hr_scalars(m0, y));
            lemma_fold_same_entries(s, x.recent_changes@, y.recent_changes@, hr_recent_stepper(),
                |c1: RecentCtcChange, c2: RecentCtcChange| same_but_reason(c1, c2));
            assert(hr_entries(m0, x) == hr_entries(m0, y));
        },
        _ => {},
    }
}

/// `k` begins with `prefix` followed by the text of the id `u`.
pub open spec fn id_keyed(k: Seq<char>, prefix: Seq<char>, u: u128) -> bool {
    (prefix + uuid_hyphenated(u)).is_prefix_of(k)
}

/// `k` begins with `p`.
pub open spec fn keyed_under(k: Seq<char>, p: Seq<char>) -> bool {
    p.is_prefix_of(k)
}

/// A key of a row under `prefix`: with an id, the prefix and the id and
/// never the fallback form; without one, the fallback form.
pub open spec fn key_follows_id(k: Seq<char>, id: Option<u128>, prefix: Seq<char>, fallback: Seq<char>) -> bool {
    match id {
        Some(u) => id_keyed(k, prefix, u) && !keyed_under(k, fallback),
        None => keyed_under(k, fallback),
    }
}

/// The keys that one row's step writes.
pub open spec fn emitted<T>(step: spec_fn(Map<Seq<char>, Seq<char>>, T) -> Map<Seq<char>, Seq<char>>, r: T) -> Set<Seq<char>> {
    step(Map::empty(), r).dom()
}

/// A row's step adds exactly the keys it emits, whatever the map holds, and
/// each of them follows the row's id.
pub open spec fn row_keys_follow_id<T>(
    step: spec_fn(Map<Seq<char>, Seq<char>>, T) -> Map<Seq<char>, Seq<char>>,
    r: T,
    id: Option<u128>,
    prefix: Seq<char>,
    fallback: Seq<char>,
) -> bool {
    &&& forall|m: Map<Seq<char>, Seq<char>>| #[trigger] step(m, r).dom() == m.dom().union(emitted(step, r))
    &&& forall|k: Seq<char>| #[trigger] emitted(step, r).contains(k) ==> key_follows_id(k, id, prefix, fallback)
}

/// A key made of a prefix, an id and anything after never begins with that
/// prefix and `name.`.
proof fn lemma_id_key(prefix: Seq<char>, u: u128, rest: Seq<char>)
    ensures
        key_follows_id(prefix + uuid_hyphenated(u) + rest, Some(u), prefix, prefix + "name."@),
{
    lemma_uuid_chars(u);
    reveal_strlit("name.");
    let k = prefix + uuid_hyphenated(u) + rest;
    assert((prefix + uuid_hyphenated(u)) =~= k.subrange(0, prefix.len() + 36int));
    assert(k[prefix.len() as int] == uuid_hyphenated(u)[0]);
    assert((prefix + "name."@)[prefix.len() as int] == 'n');
}

/// An id key never begins with the fallback text of a row when that text
/// holds a `|` (no UUID text does).
proof fn lemma_id_key_not_text(prefix: Seq<char>, u: u128, v: Seq<char>, bar: int)
    requires
        0 <= bar < v.len(),
        v[bar] == '|',
    ensures
        key_follows_id(prefix + uuid_hyphenated(u), Some(u), prefix, prefix + v),
{
    lemma_uuid_chars(u);
    let k = prefix + uuid_hyphenated(u);
    assert(k.subrange(0, k.len() as int) =~= k);
    if (prefix + v).is_prefix_of(k) {
        assert(k[prefix.len() + bar] == (prefix + v)[prefix.len() + bar]);
        assert(uuid_hyphenated(u)[bar] == '|');
    }
}

proof fn lemma_name_key(fallback: Seq<char>, rest: Seq<char>)
    ensures
        keyed_under(fallback + rest, fallback),
{
    assert(fallback =~= (fallback + rest).subrange(0, fallback.len() as int));
}

/// Every key of an HR row follows the row's id: a revision is keyed
/// `hr.recent_changes.{id}|rev{n}|{time}`, a missing employee
/// `hr.pending_updates.sample.{id}`, a top risk
/// `hr.compliance_alerts.top_risks.{id}`; only a row without an id uses the
/// `...name.` fallback.
pub proof fn law_hr_row_keys(c: RecentCtcChange, e: crate::dashboard::HrMissingEmployee, r: crate::dashboard::ComplianceTopRisk)
    ensures
        row_keys_follow_id(hr_recent_stepper(), c, c.resource_id, "hr.recent_changes."@, "hr.recent_changes.name."@),
        row_keys_follow_id(hr_sample_stepper(), e, e.id, "hr.pending_updates.sample."@, "hr.pending_updates.sample.name."@),
        row_keys_follow_id(hr_risk_stepper(), r, r.resource_id, "hr.compliance_alerts.top_risks."@, "hr.compliance_alerts.top_risks.name."@),
{
    reveal_strlit("hr.recent_changes.");
    reveal_strlit("hr.recent_changes.name.");
    reveal_strlit("hr.pending_updates.sample.");
    reveal_strlit("hr.pending_updates.sample.name.");
    reveal_strlit("hr.compliance_alerts.top_risks.");
    reveal_strlit("hr.compliance_alerts.top_risks.name.");
    reveal_strlit("name.");
    assert("hr.recent_changes.name."@ =~= "hr.recent_changes."@ + "name."@);
    assert("hr.pending_updates.sample.name."@ =~= "hr.pending_updates.sample."@ + "name."@);
    assert("hr.compliance_alerts.top_risks.name."@ =~= "hr.compliance_alerts.top_risks."@ + "name."@);
    let kc = recent_change_key(c);
    let tail = "|rev"@ + int_text(c.revision_number as int) + "|"@ + c.created_at@;
    match c.resource_id {
        Some(u) => {
            assert(kc =~= "hr.recent_changes."@ + uuid_hyphenated(u) + tail);
            lemma_id_key("hr.recent_changes."@, u, tail);
        },
        None => {
            assert(kc =~= "hr.recent_changes.name."@ + (c.resource_name@ + tail));
            lemma_name_key("hr.recent_changes.name."@, c.resource_name@ + tail);
        },
    }
    assert forall|m: Map<Seq<char>, Seq<char>>| #[trigger] hr_recent_stepper()(m, c).dom() == m.dom().union(emitted(hr_recent_stepper(), c)) by {
        assert(hr_recent_stepper()(m, c).dom() =~= m.dom().union(emitted(hr_recent_stepper(), c)));
    }
    let ne = pipe2(e.name@, e.department@);
    match e.id {
        Some(u) => { lemma_id_key("hr.pending_updates.sample."@, u, Seq::empty()); assert(
            "hr.pending_updates.sample."@ + uuid_hyphenated(u) + Seq::<char>::empty() =~= "hr.pending_updates.sample."@ + uuid_hyphenated(u)); },
        None => lemma_name_key("hr.pending_updates.sample.name."@, ne),
    }
    assert forall|m: Map<Seq<char>, Seq<char>>| #[trigger] hr_sample_stepper()(m, e).dom() == m.dom().union(emitted(hr_sample_stepper(), e)) by {
        assert(hr_sample_stepper()(m, e).dom() =~= m.dom().union(emitted(hr_sample_stepper(), e)));
    }
    let nr = pipe2(r.name@, int_text(r.variance_amount as int));
    match r.resource_id {
        Some(u) => { lemma_id_key("hr.compliance_alerts.top_risks."@, u, Seq::empty()); assert(
            "hr.compliance_alerts.top_risks."@ + uuid_hyphenated(u) + Seq::<char>::empty() =~= "hr.compliance_alerts.top_risks."@ + uuid_hyphenated(u)); },
        None => lemma_name_key("hr.compliance_alerts.top_risks.name."@, nr),
    }
    assert forall|m: Map<Seq<char>, Seq<char>>| #[trigger] hr_risk_stepper()(m, r).dom() == m.dom().union(emitted(hr_risk_stepper(), r)) by {
        assert(hr_risk_stepper()(m, r).dom() =~= m.dom().union(emitted(hr_risk_stepper(), r)));
    }
}

/// A fold of steps that each add what they emit adds what the fold from the
/// empty map holds.
proof fn lemma_fold_emits<T>(
    m: Map<Seq<char>, Seq<char>>,
    rows: Seq<T>,
    step: spec_fn(Map<Seq<char>, Seq<char>>, T) -> Map<Seq<char>, Seq<char>>,
)
    requires
        forall|mm: Map<Seq<char>, Seq<char>>, r: T| #[trigger] step(mm, r).dom() == mm.dom().union(step(Map::empty(), r).dom()),
    ensures
        fold_rows(m, rows, step).dom() == m.dom().union(fold_rows(Map::empty(), rows, step).dom()),
    decreases rows.len(),
{
    if rows.len() > 0 {
        lemma_fold_emits(m, rows.drop_last(), step);
        let a = fold_rows(m, rows.drop_last(), step);
        let e = fold_rows(Map::<Seq<char>, Seq<char>>::empty(), rows.drop_last(), step);
        assert(step(a, rows.last()).dom() == a.dom().union(step(Map::empty(), rows.last()).dom()));
        assert(step(e, rows.last()).dom() == e.dom().union(step(Map::empty(), rows.last()).dom()));
        assert(fold_rows(m, rows, step).dom() =~= m.dom().union(fold_rows(Map::empty(), rows, step).dom()));
    }
}

/// A fold of steps that only add keys passing `ok` holds only such keys when
/// it starts from the empty map.
proof fn lemma_fold_keys_ok<T>(
    rows: Seq<T>,
    step: spec_fn(Map<Seq<char>, Seq<char>>, T) -> Map<Seq<char>, Seq<char>>,
    ok: spec_fn(Seq<char>) -> bool,
)
    requires
        forall|mm: Map<Seq<char>, Seq<char>>, r: T, k: Seq<char>| #[trigger] step(mm, r).dom().contains(k) ==> mm.dom().contains(k) || ok(k),
    ensures
        forall|k: Seq<char>| #[trigger] fold_rows(Map::empty(), rows, step).dom().contains(k) ==> ok(k),
    decreases rows.len(),
{
    if rows.len() > 0 {
        lemma_fold_keys_ok(rows.drop_last(), step, ok);
        let e = fold_rows(Map::<Seq<char>, Seq<char>>::empty(), rows.drop_last(), step);
        assert forall|k: Seq<char>| #[trigger] fold_rows(Map::empty(), rows, step).dom().contains(k) implies ok(k) by {
            assert(step(e, rows.last()).dom().contains(k));
        }
    } else {
        assert forall|k: Seq<char>| #[trigger] fold_rows(Map::empty(), rows, step).dom().contains(k) implies ok(k) by {
            assert(fold_rows(Map::<Seq<char>, Seq<char>>::empty(), rows, step) == Map::<Seq<char>, Seq<char>>::empty());
        }
    }
}

/// Every key of a department-head row follows the row's id: an at-risk or
/// over-allocated member and an assignment are keyed by prefix and id, a
/// team member by `department_head.team.{id}` and a field, a trend cell by
/// `department_head.trend.{id}.{period}`; only a row without an id uses the
/// `...name.` fallback.
pub proof fn law_department_head_row_keys(
    r: crate::dashboard::UtilizationAtRisk,
    a: crate::dashboard::UpcomingAssignment,
    t: crate::dashboard::TeamUtilizationMember,
    tr: TeamUtilizationTrend,
)
    ensures
        row_keys_follow_id(dh_top_at_risk_stepper(), r, r.resource_id, "department_head.top_at_risk."@, "department_head.top_at_risk.name."@),
        row_keys_follow_id(dh_overalloc_stepper(), r, r.resource_id, "department_head.overallocations.member."@,
            "department_head.overallocations.member.name."@),
        row_keys_follow_id(dh_upcoming_stepper(), a, a.allocation_id, "department_head.upcoming_assignments."@,
            "department_head.upcoming_assignments.name."@),
        row_keys_follow_id(dh_member_stepper(), t, t.resource_id, "department_head.team."@, "department_head.team.name."@),
        row_keys_follow_id(dh_trend_member_stepper(), tr, tr.resource_id, "department_head.trend."@, "department_head.trend.name."@),
{
    reveal_strlit("name.");
    let empty = Seq::<char>::empty();
    // at risk and over-allocated
    reveal_strlit("department_head.top_at_risk.");
    reveal_strlit("department_head.top_at_risk.name.");
    reveal_strlit("department_head.overallocations.member.");
    reveal_strlit("department_head.overallocations.member.name.");
    assert("department_head.top_at_risk.name."@ =~= "department_head.top_at_risk."@ + "name."@);
    assert("department_head.overallocations.member.name."@ =~= "department_head.overallocations.member."@ + "name."@);
    match r.resource_id {
        Some(u) => {
            lemma_id_key("department_head.top_at_risk."@, u, empty);
            assert("department_head.top_at_risk."@ + uuid_hyphenated(u) + empty =~= "department_head.top_at_risk."@ + uuid_hyphenated(u));
            lemma_id_key("department_head.overallocations.member."@, u, empty);
            assert("department_head.overallocations.member."@ + uuid_hyphenated(u) + empty
                =~= "department_head.overallocations.member."@ + uuid_hyphenated(u));
        },
        None => {
            lemma_name_key("department_head.top_at_risk.name."@, r.resource_name@);
            lemma_name_key("department_head.overallocations.member.name."@, r.resource_name@);
        },
    }
    assert forall|m: Map<Seq<char>, Seq<char>>| #[trigger] dh_top_at_risk_stepper()(m, r).dom() == m.dom().union(emitted(dh_top_at_risk_stepper(), r)) by {
        assert(dh_top_at_risk_stepper()(m, r).dom() =~= m.dom().union(emitted(dh_top_at_risk_stepper(), r)));
    }
    assert forall|m: Map<Seq<char>, Seq<char>>| #[trigger] dh_overalloc_stepper()(m, r).dom() == m.dom().union(emitted(dh_overalloc_stepper(), r)) by {
        assert(dh_overalloc_stepper()(m, r).dom() =~= m.dom().union(emitted(dh_overalloc_stepper(), r)));
    }
    // upcoming assignments
    reveal_strlit("department_head.upcoming_assignments.");
    reveal_strlit("department_head.upcoming_assignments.name.");
    assert("department_head.upcoming_assignments.name."@ =~= "department_head.upcoming_assignments."@ + "name."@);
    match a.allocation_id {
        Some(u) => {
            lemma_id_key("department_head.upcoming_assignments."@, u, empty);
            assert("department_head.upcoming_assignments."@ + uuid_hyphenated(u) + empty
                =~= "department_head.upcoming_assignments."@ + uuid_hyphenated(u));
        },
        None => lemma_name_key("department_head.upcoming_assignments.name."@, crate::dashboard::assignment_name_part(a)),
    }
    assert forall|m: Map<Seq<char>, Seq<char>>| #[trigger] dh_upcoming_stepper()(m, a).dom() == m.dom().union(emitted(dh_upcoming_stepper(), a)) by {
        assert(dh_upcoming_stepper()(m, a).dom() =~= m.dom().union(emitted(dh_upcoming_stepper(), a)));
    }
    // team members
    reveal_strlit("department_head.team.");
    reveal_strlit("department_head.team.name.");
    assert("department_head.team.name."@ =~= "department_head.team."@ + "name."@);
    let km = crate::dashboard::team_member_key_spec(t);
    match t.resource_id {
        Some(u) => {
            lemma_id_key("department_head.team."@, u, ".resource_name"@);
            lemma_id_key("department_head.team."@, u, ".role"@);
            lemma_id_key("department_head.team."@, u, ".current_utilization_pct"@);
            lemma_id_key("department_head.team."@, u, ".available_capacity_pct"@);
            lemma_id_key("department_head.team."@, u, ".is_underutilized"@);
            lemma_id_key("department_head.team."@, u, ".is_overallocated"@);
            lemma_id_key("department_head.team."@, u, ".ctc_status"@);
            lemma_id_key("department_head.team."@, u, ".current_projects"@);
        },
        None => {
            lemma_name_key("department_head.team.name."@, t.resource_name@ + ".resource_name"@);
            assert(km + ".resource_name"@ =~= "department_head.team.name."@ + (t.resource_name@ + ".resource_name"@));
            lemma_name_key("department_head.team.name."@, t.resource_name@ + ".role"@);
            assert(km + ".role"@ =~= "department_head.team.name."@ + (t.resource_name@ + ".role"@));
            lemma_name_key("department_head.team.name."@, t.resource_name@ + ".current_utilization_pct"@);
            assert(km + ".current_utilization_pct"@ =~= "department_head.team.name."@ + (t.resource_name@ + ".current_utilization_pct"@));
            lemma_name_key("department_head.team.name."@, t.resource_name@ + ".available_capacity_pct"@);
            assert(km + ".available_capacity_pct"@ =~= "department_head.team.name."@ + (t.resource_name@ + ".available_capacity_pct"@));
            lemma_name_key("department_head.team.name."@, t.resource_name@ + ".is_underutilized"@);
            assert(km + ".is_underutilized"@ =~= "department_head.team.name."@ + (t.resource_name@ + ".is_underutilized"@));
            lemma_name_key("department_head.team.name."@, t.resource_name@ + ".is_overallocated"@);
            assert(km + ".is_overallocated"@ =~= "department_head.team.name."@ + (t.resource_name@ + ".is_overallocated"@));
            lemma_name_key("department_head.team.name."@, t.resource_name@ + ".ctc_status"@);
            assert(km + ".ctc_status"@ =~= "department_head.team.name."@ + (t.resource_name@ + ".ctc_status"@));
            lemma_name_key("department_head.team.name."@, t.resource_name@ + ".current_projects"@);
            assert(km + ".current_projects"@ =~= "department_head.team.name."@ + (t.resource_name@ + ".current_projects"@));
        },
    }
    assert forall|m: Map<Seq<char>, Seq<char>>| #[trigger] dh_member_stepper()(m, t).dom() == m.dom().union(emitted(dh_member_stepper(), t)) by {
        assert(dh_member_stepper()(m, t).dom() =~= m.dom().union(emitted(dh_member_stepper(), t)));
    }
    // trend rows
    reveal_strlit("department_head.trend.");
    reveal_strlit("department_head.trend.name.");
    assert("department_head.trend.name."@ =~= "department_head.trend."@ + "name."@);
    let ok = |k: Seq<char>| key_follows_id(k, tr.resource_id, "department_head.trend."@, "department_head.trend.name."@);
    assert forall|mm: Map<Seq<char>, Seq<char>>, p: crate::dashboard::TeamUtilizationTrendPeriod, k: Seq<char>|
        #[trigger] dh_period_stepper(tr)(mm, p).dom().contains(k) implies mm.dom().contains(k) || ok(k) by {
        let kp = crate::dashboard::trend_period_key_spec(tr, p.period@);
        if k == kp {
            match tr.resource_id {
                Some(u) => {
                    lemma_id_key("department_head.trend."@, u, "."@ + p.period@);
                    assert(kp =~= "department_head.trend."@ + uuid_hyphenated(u) + ("."@ + p.period@));
                },
                None => {
                    lemma_name_key("department_head.trend.name."@, tr.resource_name@ + "."@ + p.period@);
                    assert(kp =~= "department_head.trend.name."@ + (tr.resource_name@ + "."@ + p.period@));
                },
            }
        }
    }
    lemma_fold_keys_ok(tr.periods@, dh_period_stepper(tr), ok);
    assert forall|mm: Map<Seq<char>, Seq<char>>, p: crate::dashboard::TeamUtilizationTrendPeriod|
        #[trigger] dh_period_stepper(tr)(mm, p).dom() == mm.dom().union(dh_period_stepper(tr)(Map::empty(), p).dom()) by {
        assert(dh_period_stepper(tr)(mm, p).dom() =~= mm.dom().union(dh_period_stepper(tr)(Map::empty(), p).dom()));
    }
    assert forall|m: Map<Seq<char>, Seq<char>>| #[trigger] dh_trend_member_stepper()(m, tr).dom() == m.dom().union(emitted(dh_trend_member_stepper(), tr)) by {
        lemma_fold_emits(m, tr.periods@, dh_period_stepper(tr));
    }
    assert forall|k: Seq<char>| #[trigger] emitted(dh_trend_member_stepper(), tr).contains(k) implies
        key_follows_id(k, tr.resource_id, "department_head.trend."@, "department_head.trend.name."@) by {
        assert(fold_rows(Map::empty(), tr.periods@, dh_period_stepper(tr)).dom().contains(k));
        assert(ok(k));
    }
}

/// The keys of a card are its key part followed by one field suffix each.
proof fn lemma_card_emits(c: ProjectHealthCard, k: Seq<char>)
    requires
        emitted(pm_project_stepper(), c).contains(k),
    ensures
        exists|i: int| 0 <= i < 24 && k == "project_manager.project."@ + project_id_key(c.project_id, c.project_name@) + card_suffix(i),
{
    let kk = "project_manager.project."@ + project_id_key(c.project_id, c.project_name@);
    if k == kk + ".margin_pct"@ { assert(card_suffix(0) == ".margin_pct"@); }
    if k == kk + ".project_name"@ { assert(card_suffix(1) == ".project_name"@); }
    if k == kk + ".status"@ { assert(card_suffix(2) == ".status"@); }
    if k == kk + ".end_date"@ { assert(card_suffix(3) == ".end_date"@); }
    if k == kk + ".total_budget_idr"@ { assert(card_suffix(4) == ".total_budget_idr"@); }
    if k == kk + ".budget_spent_idr"@ { assert(card_suffix(5) == ".budget_spent_idr"@); }
    if k == kk + ".gross_profit_idr"@ { assert(card_suffix(6) == ".gross_profit_idr"@); }
    if k == kk + ".budget_status"@ { assert(card_suffix(7) == ".budget_status"@); }
    if k == kk + ".budget_remaining_idr"@ { assert(card_suffix(8) == ".budget_remaining_idr"@); }
    if k == kk + ".total_revenue_idr"@ { assert(card_suffix(9) == ".total_revenue_idr"@); }
    if k == kk + ".total_cost_idr"@ { assert(card_suffix(10) == ".total_cost_idr"@); }
    if k == kk + ".warning"@ { assert(card_suffix(11) == ".warning"@); }
    if k == kk + ".margin_alert"@ { assert(card_suffix(12) == ".margin_alert"@); }
    if k == kk + ".budget_utilization_pct"@ { assert(card_suffix(13) == ".budget_utilization_pct"@); }
    if k == kk + ".is_over_budget"@ { assert(card_suffix(14) == ".is_over_budget"@); }
    if k == kk + ".budget_overrun_idr"@ { assert(card_suffix(15) == ".budget_overrun_idr"@); }
    if k == kk + ".forecast_margin_pct"@ { assert(card_suffix(16) == ".forecast_margin_pct"@); }
    if k == kk + ".forecast_variance_from_target_pct"@ { assert(card_suffix(17) == ".forecast_variance_from_target_pct"@); }
    if k == kk + ".projected_total_cost_idr"@ { assert(card_suffix(18) == ".projected_total_cost_idr"@); }
    if k == kk + ".forecast_unavailable"@ { assert(card_suffix(19) == ".forecast_unavailable"@); }
    if k == kk + ".forecast_has_revenue_signal"@ { assert(card_suffix(20) == ".forecast_has_revenue_signal"@); }
    if k == kk + ".health_status"@ { assert(card_suffix(21) == ".health_status"@); }
    if k == kk + ".target_margin_pct"@ { assert(card_suffix(22) == ".target_margin_pct"@); }
    if k == kk + ".margin_alert_threshold_pct"@ { assert(card_suffix(23) == ".margin_alert_threshold_pct"@); }
}

/// A card key of a project with id `u` follows the id.
proof fn lemma_card_key_follows(c: ProjectHealthCard, i: int)
    requires
        0 <= i < 24,
    ensures
        key_follows_id("project_manager.project."@ + project_id_key(c.project_id, c.project_name@) + card_suffix(i),
            c.project_id, "project_manager.project."@, "project_manager.project.name."@),
{
    reveal_strlit("name.");
    reveal_strlit("project_manager.project.");
    reveal_strlit("project_manager.project.name.");
    let pp = "project_manager.project."@;
    assert("project_manager.project.name."@ =~= pp + "name."@);
    let k = pp + project_id_key(c.project_id, c.project_name@);
    match c.project_id {
        Some(u) => {
            assert(k =~= pp + uuid_hyphenated(u));
            lemma_id_key(pp, u, card_suffix(i));
        },
        None => {
            assert(k =~= "project_manager.project.name."@ + c.project_name@);
            lemma_name_key("project_manager.project.name."@, c.project_name@ + card_suffix(i));
            assert(k + card_suffix(i) =~= "project_manager.project.name."@ + (c.project_name@ + card_suffix(i)));
        },
    }
}

/// Every key of a project-manager row follows the project's id: a card's
/// fields are keyed `project_manager.project.{id}.{field}` and an alert
/// `project_manager.margin_alert.{id}`; only a project without an id uses
/// the `...name.` fallback.
pub proof fn law_project_manager_row_keys(c: ProjectHealthCard, a: MarginAlert)
    ensures
        row_keys_follow_id(pm_project_stepper(), c, c.project_id, "project_manager.project."@, "project_manager.project.name."@),
        row_keys_follow_id(pm_alert_stepper(), a, a.project_id, "project_manager.margin_alert."@, "project_manager.margin_alert.name."@),
{
    assert forall|k: Seq<char>| #[trigger] emitted(pm_project_stepper(), c).contains(k) implies
        key_follows_id(k, c.project_id, "project_manager.project."@, "project_manager.project.name."@) by {
        lemma_card_emits(c, k);
        let i = choose|i: int| 0 <= i < 24 && k == "project_manager.project."@ + project_id_key(c.project_id, c.project_name@) + card_suffix(i);
        lemma_card_key_follows(c, i);
    }
    assert forall|m: Map<Seq<char>, Seq<char>>| #[trigger] pm_project_stepper()(m, c).dom() == m.dom().union(emitted(pm_project_stepper(), c)) by {
        assert(pm_project_stepper()(m, c).dom() =~= m.dom().union(emitted(pm_project_stepper(), c)));
    }
    reveal_strlit("name.");
    reveal_strlit("project_manager.margin_alert.");
    reveal_strlit("project_manager.margin_alert.name.");
    let pa = "project_manager.margin_alert."@;
    assert("project_manager.margin_alert.name."@ =~= pa + "name."@);
    let ka = pa + project_id_key(a.project_id, a.project_name@);
    match a.project_id {
        Some(u) => {
            lemma_id_key(pa, u, Seq::empty());
            assert(ka =~= pa + uuid_hyphenated(u) + Seq::<char>::empty());
        },
        None => {
            lemma_name_key("project_manager.margin_alert.name."@, a.project_name@);
            assert(ka =~= "project_manager.margin_alert.name."@ + a.project_name@);
        },
    }
    assert forall|m: Map<Seq<char>, Seq<char>>| #[trigger] pm_alert_stepper()(m, a).dom() == m.dom().union(emitted(pm_alert_stepper(), a)) by {
        assert(pm_alert_stepper()(m, a).dom() =~= m.dom().union(emitted(pm_alert_stepper(), a)));
    }
}

/// Every key of a finance row follows the row's id: an audit alert is keyed
/// `finance.audit_alerts.recent.{id}` and a pending export
/// `finance.export_requests.latest.{id}`; only a row without an id is keyed
/// by its `action|entity|time` (or `status|time`) text, and an id key is
/// never that text's key.
pub proof fn law_finance_row_keys(e: crate::dashboard::AuditAlertEntry, q: crate::dashboard::PendingExportRequest)
    ensures
        row_keys_follow_id(fin_recent_stepper(), e, e.id, "finance.audit_alerts.recent."@,
            "finance.audit_alerts.recent."@ + pipe3(e.action@, e.entity_type@, e.created_at@)),
        row_keys_follow_id(fin_pending_stepper(), q, q.id, "finance.export_requests.latest."@,
            "finance.export_requests.latest."@ + pipe2(q.status@, q.created_at@)),
{
    reveal_strlit("|");
    let pr = "finance.audit_alerts.recent."@;
    let v = pipe3(e.action@, e.entity_type@, e.created_at@);
    match e.id {
        Some(u) => {
            assert(v[e.action@.len() as int] == '|');
            lemma_id_key_not_text(pr, u, v, e.action@.len() as int);
        },
        None => {
            lemma_name_key(pr + v, Seq::empty());
            assert(pr + v + Seq::<char>::empty() =~= pr + v);
        },
    }
    assert forall|m: Map<Seq<char>, Seq<char>>| #[trigger] fin_recent_stepper()(m, e).dom() == m.dom().union(emitted(fin_recent_stepper(), e)) by {
        assert(fin_recent_stepper()(m, e).dom() =~= m.dom().union(emitted(fin_recent_stepper(), e)));
    }
    let pl = "finance.export_requests.latest."@;
    let w = pipe2(q.status@, q.created_at@);
    match q.id {
        Some(u) => {
            assert(w[q.status@.len() as int] == '|');
            lemma_id_key_not_text(pl, u, w, q.status@.len() as int);
        },
        None => {
            lemma_name_key(pl + w, Seq::empty());
            assert(pl + w + Seq::<char>::empty() =~= pl + w);
        },
    }
    assert forall|m: Map<Seq<char>, Seq<char>>| #[trigger] fin_pending_stepper()(m, q).dom() == m.dom().union(emitted(fin_pending_stepper(), q)) by {
        assert(fin_pending_stepper()(m, q).dom() =~= m.dom().union(emitted(fin_pending_stepper(), q)));
    }
}

/// Different numbers have different texts.
proof fn lemma_int_text_injective(x: int, y: int)
    requires
        int_text(x) == int_text(y),
    ensures
        x == y,
{
    crate::laws::law_decimal_digits_are_digits(if x < 0 { (-x) as nat } else { x as nat });
    crate::laws::law_decimal_digits_are_digits(if y < 0 { (-y) as nat } else { y as nat });
    crate::numbers::lemma_decimal_digits_len(if x < 0 { (-x) as nat } else { x as nat });
    crate::numbers::lemma_decimal_digits_len(if y < 0 { (-y) as nat } else { y as nat });
    if x < 0 && y < 0 {
        assert(crate::numbers::decimal_digits((-x) as nat) =~= int_text(x).skip(1));
        assert(crate::numbers::decimal_digits((-y) as nat) =~= int_text(y).skip(1));
        crate::numbers::lemma_decimal_digits_injective((-x) as nat, (-y) as nat);
    } else if x >= 0 && y >= 0 {
        crate::numbers::lemma_decimal_digits_injective(x as nat, y as nat);
    } else if x < 0 {
        assert(int_text(x)[0] == '-');
        assert(crate::numbers::is_digit(int_text(y)[0]));
    } else {
        assert(int_text(y)[0] == '-');
        assert(crate::numbers::is_digit(int_text(x)[0]));
    }
}

/// The sum of the four security-alert counts.
pub open spec fn four_alert_counts(a: crate::dashboard::AuditAlertsSummary) -> int {
    a.access_denied_count + a.login_failed_count + a.login_blocked_count + a.chain_verification_failure_count
}

proof fn lemma_finance_total(m: Map<Seq<char>, Seq<char>>, f: FinanceDashboard)
    ensures
        shows(finance_entries(m, f), "finance.audit_alerts.total"@, int_text(four_alert_counts(f.audit_alerts))),
{
    let k = "finance.audit_alerts.total"@;
    reveal_strlit("finance.audit_alerts.total");
    reveal_strlit("finance.audit_alerts.access_denied_count");
    reveal_strlit("finance.audit_alerts.login_failed_count");
    reveal_strlit("finance.audit_alerts.login_blocked_count");
    reveal_strlit("finance.audit_alerts.chain_verification_failure_count");
    reveal_strlit("finance.export_requests.pending_count");
    reveal_strlit("finance.audit_alerts.recent.");
    reveal_strlit("finance.export_requests.latest.");
    let m1 = m.insert("finance.cash_position.ending_cumulative_position_idr"@, int_text(f.cash_position.ending_cumulative_position_idr as int))
        .insert("finance.cash_position.net_cash_flow_idr"@, int_text(f.cash_position.net_cash_flow_idr as int))
        .insert("finance.cash_position.total_cash_in_idr"@, int_text(f.cash_position.total_cash_in_idr as int))
        .insert("finance.cash_position.total_cash_out_idr"@, int_text(f.cash_position.total_cash_out_idr as int))
        .insert("finance.ctc_validation.status"@, f.ctc_validation.status@)
        .insert("finance.ctc_validation.match_rate_pct"@, match f.ctc_validation.match_rate_pct_text {
            Some(t) => t@,
            None => "none"@,
        })
        .insert("finance.ctc_validation.total_compared"@, crate::dashboard::opt_count_text(f.ctc_validation.total_compared))
        .insert("finance.ctc_validation.total_matches"@, crate::dashboard::opt_count_text(f.ctc_validation.total_matches))
        .insert("finance.ctc_validation.total_discrepancies"@, crate::dashboard::opt_count_text(f.ctc_validation.total_discrepancies))
        .insert("finance.audit_alerts.total"@, int_text(crate::dashboard::audit_alert_total(f.audit_alerts)))
        .insert("finance.audit_alerts.access_denied_count"@, int_text(f.audit_alerts.access_denied_count as int))
        .insert("finance.audit_alerts.login_failed_count"@, int_text(f.audit_alerts.login_failed_count as int))
        .insert("finance.audit_alerts.login_blocked_count"@, int_text(f.audit_alerts.login_blocked_count as int))
        .insert("finance.audit_alerts.chain_verification_failure_count"@, int_text(f.audit_alerts.chain_verification_failure_count as int))
        .insert("finance.export_requests.pending_count"@, int_text(f.export_requests.pending_count as int));
    assert(crate::dashboard::audit_alert_total(f.audit_alerts) == four_alert_counts(f.audit_alerts));
    assert(k[21] == 't' && "finance.audit_alerts.access_denied_count"@[21] == 'a');
    assert(k != "finance.audit_alerts.access_denied_count"@);
    assert(k[21] == 't' && "finance.audit_alerts.login_failed_count"@[21] == 'l');
    assert(k != "finance.audit_alerts.login_failed_count"@);
    assert("finance.audit_alerts.login_blocked_count"@[21] == 'l');
    assert(k != "finance.audit_alerts.login_blocked_count"@);
    assert("finance.audit_alerts.chain_verification_failure_count"@[21] == 'c');
    assert(k != "finance.audit_alerts.chain_verification_failure_count"@);
    assert(k[8] == 'a' && "finance.export_requests.pending_count"@[8] == 'e');
    assert(k != "finance.export_requests.pending_count"@);
    assert(shows(m1, k, int_text(four_alert_counts(f.audit_alerts))));
    assert forall|mm: Map<Seq<char>, Seq<char>>, e: crate::dashboard::AuditAlertEntry| #[trigger] same_at(fin_recent_stepper()(mm, e), mm, k) by {
        assert(id_or_name("finance.audit_alerts.recent."@, e.id, "finance.audit_alerts.recent."@,
            pipe3(e.action@, e.entity_type@, e.created_at@))[21] == 'r');
    }
    assert forall|mm: Map<Seq<char>, Seq<char>>, q: crate::dashboard::PendingExportRequest| #[trigger] same_at(fin_pending_stepper()(mm, q), mm, k) by {
        assert(id_or_name("finance.export_requests.latest."@, q.id, "finance.export_requests.latest."@,
            pipe2(q.status@, q.created_at@))[8] == 'e');
    }
    lemma_fold_leaves(m1, f.audit_alerts.recent@, fin_recent_stepper(), k);
    let m2 = fold_rows(m1, f.audit_alerts.recent@, fin_recent_stepper());
    lemma_fold_leaves(m2, f.export_requests.latest_pending@, fin_pending_stepper(), k);
}

/// The security-alert total of the finance panel is the sum of all four
/// alert counts (access denied, failed logins, blocked logins and chain
/// verification failures), so two polls whose sums differ highlight it:
/// a change in any single count is seen.
pub proof fn law_audit_total_sums_all_counts(a: RoleDashboardResponse, b: RoleDashboardResponse)
    requires
        a.finance is Some,
        b.finance is Some,
    ensures
        dashboard_values(a).dom().contains("finance.audit_alerts.total"@),
        dashboard_values(a)["finance.audit_alerts.total"@] == int_text(four_alert_counts(a.finance.unwrap().audit_alerts)),
        four_alert_counts(a.finance.unwrap().audit_alerts) != four_alert_counts(b.finance.unwrap().audit_alerts)
            ==> changed_keys_spec(dashboard_values(a), dashboard_values(b)).contains("finance.audit_alerts.total"@),
{
    let k = "finance.audit_alerts.total"@;
    reveal_strlit("finance.audit_alerts.total");
    assert(k[0] == 'f');
    let m0 = Map::<Seq<char>, Seq<char>>::empty();
    let ha = match a.hr { Some(h) => hr_entries(m0, h), None => m0 };
    let da = match a.department_head { Some(x) => dh_entries(ha, x), None => ha };
    let pa = match a.project_manager { Some(p) => pm_entries(da, p), None => da };
    let fa = finance_entries(pa, a.finance.unwrap());
    lemma_finance_total(pa, a.finance.unwrap());
    match a.admin { Some(ad) => lemma_admin_leaves(fa, ad, k), None => {} }
    let hb = match b.hr { Some(h) => hr_entries(m0, h), None => m0 };
    let db = match b.department_head { Some(x) => dh_entries(hb, x), None => hb };
    let pb = match b.project_manager { Some(p) => pm_entries(db, p), None => db };
    let fb = finance_entries(pb, b.finance.unwrap());
    lemma_finance_total(pb, b.finance.unwrap());
    match b.admin { Some(ad) => lemma_admin_leaves(fb, ad, k), None => {} }
    if four_alert_counts(a.finance.unwrap().audit_alerts) != four_alert_counts(b.finance.unwrap().audit_alerts) {
        if int_text(four_alert_counts(a.finance.unwrap().audit_alerts)) == int_text(four_alert_counts(b.finance.unwrap().audit_alerts)) {
            lemma_int_text_injective(four_alert_counts(a.finance.unwrap().audit_alerts), four_alert_counts(b.finance.unwrap().audit_alerts));
        }
    }
}

} // verus!
