use vstd::prelude::*;
use crate::text::{owned, cat, cat3, chars_of, string_from_chars, append_str, chars_lt, seq_lt, lemma_seq_lt_total, lemma_seq_lt_transitive, lemma_seq_lt_asymmetric};
use crate::numbers::{i64_text, i32_text, usize_text, int_text};
use crate::ids::{uuid_text, uuid_hyphenated};
use crate::value_map::ValueMap;

verus! {

// The dashboard as the change-highlighting reads it. Numbers that the page
// shows as rounded percentages arrive already rendered (`*_text` fields, with
// the number of decimals the page uses); everything else is carried as is.

/// Response of the role dashboard endpoint.
pub struct RoleDashboardResponse {
    pub role: String,
    pub generated_at: String,
    pub hr: Option<HrDashboard>,
    pub department_head: Option<DepartmentHeadDashboard>,
    pub project_manager: Option<ProjectManagerDashboard>,
    pub finance: Option<FinanceDashboard>,
    pub admin: Option<AdminDashboard>,
}

/// The HR section.
pub struct HrDashboard {
    pub completeness: CompletenessReport,
    pub pending_updates: HrPendingUpdates,
    pub recent_changes: Vec<RecentCtcChange>,
    pub compliance_alerts: ComplianceAlertSummary,
}

/// CTC completeness totals; the completion rate with one decimal.
pub struct CompletenessReport {
    pub total_employees: i64,
    pub total_with_ctc: i64,
    pub total_missing: i64,
    pub overall_completion_pct_text: String,
}

/// Employees still missing a CTC record.
pub struct HrPendingUpdates {
    pub missing_count: i64,
    pub sample: Vec<HrMissingEmployee>,
}

/// One employee missing a CTC record.
pub struct HrMissingEmployee {
    pub id: Option<u128>,
    pub name: String,
    pub department: String,
}

/// One recent CTC revision.
pub struct RecentCtcChange {
    pub resource_id: Option<u128>,
    pub resource_name: String,
    pub revision_number: i32,
    pub changed_by_name: Option<String>,
    pub created_at: String,
    pub reason: String,
}

/// BPJS compliance summary; the rate with one decimal.
pub struct ComplianceAlertSummary {
    pub start_date: String,
    pub end_date: String,
    pub total_validated: i64,
    pub total_passed: i64,
    pub total_discrepancies: i64,
    pub compliance_rate_pct_text: String,
    pub top_risks: Vec<ComplianceTopRisk>,
}

/// One of the largest compliance variances.
pub struct ComplianceTopRisk {
    pub resource_id: Option<u128>,
    pub name: String,
    pub variance_amount: i64,
}

/// The department-head section.
pub struct DepartmentHeadDashboard {
    pub utilization: UtilizationSummary,
    pub budget: Option<DepartmentBudgetSummary>,
    pub overallocations: OverallocationSummary,
    pub upcoming_assignments: Vec<UpcomingAssignment>,
    pub team_members: Vec<TeamUtilizationMember>,
    pub utilization_trends: Option<TeamUtilizationTrendBundle>,
    /// Average available capacity of the team with one decimal (`0.0` for an
    /// empty team).
    pub avg_available_capacity_pct_text: String,
}

/// One team member's utilization row.
pub struct TeamUtilizationMember {
    pub resource_id: Option<u128>,
    pub resource_name: String,
    pub role: String,
    pub current_utilization_pct_text: String,
    pub available_capacity_pct_text: String,
    /// Flag reported by the backend.
    pub is_underutilized: bool,
    /// The current utilization is below the 50% threshold.
    pub below_underutilized_threshold: bool,
    pub is_overallocated: bool,
    pub ctc_status: String,
    /// Deterministic summary of the member's current projects.
    pub current_projects_summary: String,
}

/// Utilization trend of the team.
pub struct TeamUtilizationTrendBundle {
    pub start_date: String,
    pub end_date: String,
    pub members: Vec<TeamUtilizationTrend>,
}

/// Trend of one member.
pub struct TeamUtilizationTrend {
    pub resource_id: Option<u128>,
    pub resource_name: String,
    pub periods: Vec<TeamUtilizationTrendPeriod>,
}

/// One trend period; the utilization without decimals.
pub struct TeamUtilizationTrendPeriod {
    pub period: String,
    pub utilization_pct_text: String,
}

/// Utilization summary; the average with one decimal.
pub struct UtilizationSummary {
    pub average_utilization_pct_text: String,
    pub overallocated_count: i64,
    pub top_at_risk: Vec<UtilizationAtRisk>,
}

/// A member near or over capacity; the allocation without decimals.
pub struct UtilizationAtRisk {
    pub resource_id: Option<u128>,
    pub resource_name: String,
    pub current_allocation_pct_text: String,
}

/// Department budget; the utilization without decimals.
pub struct DepartmentBudgetSummary {
    pub total_budget_idr: i64,
    pub total_committed_idr: i64,
    pub spent_actual_idr: i64,
    pub remaining_idr: i64,
    pub utilization_percentage_text: String,
    pub budget_health: String,
    pub alert_threshold_pct: i32,
}

/// Overallocated members.
pub struct OverallocationSummary {
    pub overallocated_count: i64,
    pub members: Vec<UtilizationAtRisk>,
}

/// An upcoming assignment; the allocation without decimals.
pub struct UpcomingAssignment {
    pub allocation_id: Option<u128>,
    pub resource_name: String,
    pub project_name: String,
    pub start_date: String,
    pub end_date: String,
    pub allocation_percentage_text: String,
}

/// The project-manager section.
pub struct ProjectManagerDashboard {
    pub active_projects: Vec<ProjectHealthCard>,
    pub margin_alerts: Vec<MarginAlert>,
}

/// One project card; percentages with one decimal.
pub struct ProjectHealthCard {
    pub project_id: Option<u128>,
    pub project_name: String,
    pub status: String,
    pub end_date: String,
    pub total_budget_idr: i64,
    pub budget_spent_idr: i64,
    pub budget_remaining_idr: i64,
    pub budget_status: String,
    pub budget_utilization_pct_text: String,
    pub is_over_budget: bool,
    pub budget_overrun_idr: i64,
    pub total_revenue_idr: i64,
    pub total_cost_idr: i64,
    pub gross_profit_idr: i64,
    pub margin_pct_text: String,
    pub target_margin_pct_text: String,
    pub margin_alert_threshold_pct_text: String,
    pub margin_alert: Option<String>,
    pub forecast_margin_pct_text: String,
    pub forecast_variance_from_target_pct_text: String,
    pub projected_total_cost_idr: i64,
    pub forecast_unavailable: bool,
    pub forecast_has_revenue_signal: bool,
    pub health_status: String,
    pub warning: Option<String>,
}

/// A margin alert; the margin with one decimal.
pub struct MarginAlert {
    pub project_id: Option<u128>,
    pub project_name: String,
    pub margin_pct_text: String,
    pub message: String,
}

/// The finance section.
pub struct FinanceDashboard {
    pub cash_position: CashPositionSummary,
    pub ctc_validation: CtcValidationStatus,
    pub audit_alerts: AuditAlertsSummary,
    pub export_requests: ExportRequestsSummary,
}

/// Cash position over the period.
pub struct CashPositionSummary {
    pub total_cash_in_idr: i64,
    pub total_cash_out_idr: i64,
    pub net_cash_flow_idr: i64,
    pub ending_cumulative_position_idr: i64,
}

/// Latest payroll validation; the match rate with one decimal.
pub struct CtcValidationStatus {
    pub status: String,
    pub total_compared: Option<i64>,
    pub total_matches: Option<i64>,
    pub total_discrepancies: Option<i64>,
    pub match_rate_pct_text: Option<String>,
}

/// Security alert counts.
pub struct AuditAlertsSummary {
    pub access_denied_count: i64,
    pub login_failed_count: i64,
    pub login_blocked_count: i64,
    pub chain_verification_failure_count: i64,
    pub recent: Vec<AuditAlertEntry>,
}

/// One recent security alert.
pub struct AuditAlertEntry {
    pub id: Option<u128>,
    pub action: String,
    pub entity_type: String,
    pub created_at: String,
}

/// Export requests awaiting approval.
pub struct ExportRequestsSummary {
    pub pending_count: i64,
    pub latest_pending: Vec<PendingExportRequest>,
}

/// One export request awaiting approval.
pub struct PendingExportRequest {
    pub id: Option<u128>,
    pub status: String,
    pub created_at: String,
    pub report_type: Option<String>,
}

/// The admin section.
pub struct AdminDashboard {
    pub total_users: i64,
    pub total_departments: i64,
    pub total_active_projects: i64,
    pub total_active_ctc_records: i64,
    pub pending_export_requests: i64,
    pub access_denied_24h: i64,
}

/// `true` / `false` as Rust prints booleans.
pub open spec fn bool_text(b: bool) -> Seq<char> {
    if b { "true"@ } else { "false"@ }
}

/// An optional text, empty when absent.
pub open spec fn opt_text(o: Option<String>) -> Seq<char> {
    match o {
        Some(s) => s@,
        None => Seq::empty(),
    }
}

/// Key text under a stable id, or under a fallback name when the id is absent.
pub open spec fn id_or_name(id_prefix: Seq<char>, id: Option<u128>, name_prefix: Seq<char>, name: Seq<char>) -> Seq<char> {
    match id {
        Some(u) => id_prefix + uuid_hyphenated(u),
        None => name_prefix + name,
    }
}

/// Rust's rendering of a boolean.
pub fn bool_string(b: bool) -> (r: String)
    ensures
        r@ == bool_text(b),
{
    if b { owned("true") } else { owned("false") }
}

/// An optional text, empty when absent.
pub fn opt_string(o: &Option<String>) -> (r: String)
    ensures
        r@ == opt_text(*o),
{
    match o {
        Some(s) => s.clone(),
        None => String::new(),
    }
}

/// `id_prefix + id` or `name_prefix + name`.
pub fn id_or_name_key(id_prefix: &str, id: Option<u128>, name_prefix: &str, name: &str) -> (r: String)
    ensures
        r@ == id_or_name(id_prefix@, id, name_prefix@, name@),
{
    match id {
        Some(u) => {
            let t = uuid_text(u);
            cat(id_prefix, t.as_str())
        },
        None => cat(name_prefix, name),
    }
}

/// `a|b`.
pub open spec fn pipe2(a: Seq<char>, b: Seq<char>) -> Seq<char> {
    a + "|"@ + b
}

/// `a|b|c`.
pub open spec fn pipe3(a: Seq<char>, b: Seq<char>, c: Seq<char>) -> Seq<char> {
    a + "|"@ + b + "|"@ + c
}

/// `a|b`.
pub fn pipe2_string(a: &str, b: &str) -> (r: String)
    ensures
        r@ == pipe2(a@, b@),
{
    cat3(a, "|", b)
}

/// `a|b|c`.
pub fn pipe3_string(a: &str, b: &str, c: &str) -> (r: String)
    ensures
        r@ == pipe3(a@, b@, c@),
{
    let mut v = chars_of(a);
    append_str(&mut v, "|");
    append_str(&mut v, b);
    append_str(&mut v, "|");
    append_str(&mut v, c);
    string_from_chars(&v)
}

/// Key of a recent CTC revision.
pub open spec fn recent_change_key(c: RecentCtcChange) -> Seq<char> {
    id_or_name("hr.recent_changes."@, c.resource_id, "hr.recent_changes.name."@, c.resource_name@) + "|rev"@
        + int_text(c.revision_number as int) + "|"@ + c.created_at@
}

/// Stable key of a recent CTC revision: resource id (or name), revision and
/// timestamp.
pub fn recent_ctc_change_key(change: &RecentCtcChange) -> (r: String)
    ensures
        r@ == recent_change_key(*change),
{
    let head = id_or_name_key("hr.recent_changes.", change.resource_id, "hr.recent_changes.name.", change.resource_name.as_str());
    let rev = i32_text(change.revision_number);
    let mut v = chars_of(head.as_str());
    append_str(&mut v, "|rev");
    append_str(&mut v, rev.as_str());
    append_str(&mut v, "|");
    append_str(&mut v, change.created_at.as_str());
    string_from_chars(&v)
}

/// Key prefix of a team member row.
pub open spec fn team_member_key_spec(m: TeamUtilizationMember) -> Seq<char> {
    id_or_name("department_head.team."@, m.resource_id, "department_head.team.name."@, m.resource_name@)
}

/// Stable key of a team member row: the resource id, else its name.
pub fn team_member_key(member: &TeamUtilizationMember) -> (r: String)
    ensures
        r@ == team_member_key_spec(*member),
{
    id_or_name_key("department_head.team.", member.resource_id, "department_head.team.name.", member.resource_name.as_str())
}

/// Key of one trend cell.
pub open spec fn trend_period_key_spec(m: TeamUtilizationTrend, period: Seq<char>) -> Seq<char> {
    id_or_name("department_head.trend."@, m.resource_id, "department_head.trend.name."@, m.resource_name@) + "."@ + period
}

/// Stable key of one trend cell: member id (or name) and period.
pub fn trend_period_key(member: &TeamUtilizationTrend, period: &str) -> (r: String)
    ensures
        r@ == trend_period_key_spec(*member, period@),
{
    let head = id_or_name_key("department_head.trend.", member.resource_id, "department_head.trend.name.", member.resource_name.as_str());
    cat3(head.as_str(), ".", period)
}

/// Applies `step` to every row in order.
pub open spec fn fold_rows<T>(
    m: Map<Seq<char>, Seq<char>>,
    rows: Seq<T>,
    step: spec_fn(Map<Seq<char>, Seq<char>>, T) -> Map<Seq<char>, Seq<char>>,
) -> Map<Seq<char>, Seq<char>>
    decreases rows.len(),
{
    if rows.len() == 0 {
        m
    } else {
        step(fold_rows(m, rows.drop_last(), step), rows.last())
    }
}

pub proof fn lemma_fold_rows_step<T>(
    m: Map<Seq<char>, Seq<char>>,
    rows: Seq<T>,
    i: int,
    step: spec_fn(Map<Seq<char>, Seq<char>>, T) -> Map<Seq<char>, Seq<char>>,
)
    requires
        0 <= i < rows.len(),
    ensures
        fold_rows(m, rows.take(i + 1), step) == step(fold_rows(m, rows.take(i), step), rows[i]),
{
    assert(rows.take(i + 1).drop_last() =~= rows.take(i));
}

pub proof fn lemma_fold_rows_all<T>(
    m: Map<Seq<char>, Seq<char>>,
    rows: Seq<T>,
    step: spec_fn(Map<Seq<char>, Seq<char>>, T) -> Map<Seq<char>, Seq<char>>,
)
    ensures
        fold_rows(m, rows.take(rows.len() as int), step) == fold_rows(m, rows, step),
{
    assert(rows.take(rows.len() as int) =~= rows);
}

fn put(map: &mut ValueMap, key: &str, value: String)
    ensures
        final(map).view() == old(map).view().insert(key@, value@),
{
    map.insert(owned(key), value);
}

fn put_i64(map: &mut ValueMap, key: &str, value: i64)
    ensures
        final(map).view() == old(map).view().insert(key@, int_text(value as int)),
{
    map.insert(owned(key), i64_text(value));
}

} // verus!

verus! {

/// Entry of one recent CTC revision.
pub open spec fn hr_recent_step(m: Map<Seq<char>, Seq<char>>, c: RecentCtcChange) -> Map<Seq<char>, Seq<char>> {
    m.insert(recent_change_key(c), pipe2(c.resource_name@, opt_text(c.changed_by_name)))
}

pub open spec fn hr_recent_stepper() -> spec_fn(Map<Seq<char>, Seq<char>>, RecentCtcChange) -> Map<Seq<char>, Seq<char>> {
    |m: Map<Seq<char>, Seq<char>>, c: RecentCtcChange| hr_recent_step(m, c)
}

/// Entry of one employee missing a CTC record.
pub open spec fn hr_sample_step(m: Map<Seq<char>, Seq<char>>, e: HrMissingEmployee) -> Map<Seq<char>, Seq<char>> {
    m.insert(
        id_or_name("hr.pending_updates.sample."@, e.id, "hr.pending_updates.sample.name."@, pipe2(e.name@, e.department@)),
        pipe2(e.name@, e.department@),
    )
}

pub open spec fn hr_sample_stepper() -> spec_fn(Map<Seq<char>, Seq<char>>, HrMissingEmployee) -> Map<Seq<char>, Seq<char>> {
    |m: Map<Seq<char>, Seq<char>>, e: HrMissingEmployee| hr_sample_step(m, e)
}

/// Entry of one top compliance risk.
pub open spec fn hr_risk_step(m: Map<Seq<char>, Seq<char>>, r: ComplianceTopRisk) -> Map<Seq<char>, Seq<char>> {
    m.insert(
        id_or_name("hr.compliance_alerts.top_risks."@, r.resource_id, "hr.compliance_alerts.top_risks.name."@,
            pipe2(r.name@, int_text(r.variance_amount as int))),
        pipe2(r.name@, int_text(r.variance_amount as int)),
    )
}

pub open spec fn hr_risk_stepper() -> spec_fn(Map<Seq<char>, Seq<char>>, ComplianceTopRisk) -> Map<Seq<char>, Seq<char>> {
    |m: Map<Seq<char>, Seq<char>>, r: ComplianceTopRisk| hr_risk_step(m, r)
}

/// The HR figures.
pub open spec fn hr_scalars(m: Map<Seq<char>, Seq<char>>, hr: HrDashboard) -> Map<Seq<char>, Seq<char>> {
    m.insert("hr.completeness.overall_completion_pct"@, hr.completeness.overall_completion_pct_text@)
        .insert("hr.completeness.total_with_ctc"@, int_text(hr.completeness.total_with_ctc as int))
        .insert("hr.completeness.total_employees"@, int_text(hr.completeness.total_employees as int))
        .insert("hr.pending_updates.missing_count"@, int_text(hr.pending_updates.missing_count as int))
        .insert("hr.compliance_alerts.compliance_rate_pct"@, hr.compliance_alerts.compliance_rate_pct_text@)
        .insert("hr.compliance_alerts.total_discrepancies"@, int_text(hr.compliance_alerts.total_discrepancies as int))
        .insert("hr.compliance_alerts.total_validated"@, int_text(hr.compliance_alerts.total_validated as int))
        .insert("hr.compliance_alerts.total_passed"@, int_text(hr.compliance_alerts.total_passed as int))
}

/// The HR entries: figures, then one entry per recent revision, per missing
/// employee and per top risk.
pub open spec fn hr_entries(m: Map<Seq<char>, Seq<char>>, hr: HrDashboard) -> Map<Seq<char>, Seq<char>> {
    let m1 = hr_scalars(m, hr);
    let m2 = fold_rows(m1, hr.recent_changes@, hr_recent_stepper());
    let m3 = fold_rows(m2, hr.pending_updates.sample@, hr_sample_stepper());
    fold_rows(m3, hr.compliance_alerts.top_risks@, hr_risk_stepper())
}

fn put_hr(map: &mut ValueMap, hr: &HrDashboard)
    ensures
        final(map).view() == hr_entries(old(map).view(), *hr),
{
    put(map, "hr.completeness.overall_completion_pct", hr.completeness.overall_completion_pct_text.clone());
    put_i64(map, "hr.completeness.total_with_ctc", hr.completeness.total_with_ctc);
    put_i64(map, "hr.completeness.total_employees", hr.completeness.total_employees);
    put_i64(map, "hr.pending_updates.missing_count", hr.pending_updates.missing_count);
    put(map, "hr.compliance_alerts.compliance_rate_pct", hr.compliance_alerts.compliance_rate_pct_text.clone());
    put_i64(map, "hr.compliance_alerts.total_discrepancies", hr.compliance_alerts.total_discrepancies);
    put_i64(map, "hr.compliance_alerts.total_validated", hr.compliance_alerts.total_validated);
    put_i64(map, "hr.compliance_alerts.total_passed", hr.compliance_alerts.total_passed);
    let ghost m1 = map.view();
    assert(m1 == hr_scalars(old(map).view(), *hr));

    let rows = &hr.recent_changes;
    let mut i: usize = 0;
    while i < rows.len()
        invariant
            i <= rows@.len(),
            map.view() == fold_rows(m1, rows@.take(i as int), hr_recent_stepper()),
        decreases rows.len() - i,
    {
        let c = &rows[i];
        let key = recent_ctc_change_key(c);
        let by = opt_string(&c.changed_by_name);
        let value = pipe2_string(c.resource_name.as_str(), by.as_str());
        map.insert(key, value);
        proof { lemma_fold_rows_step(m1, rows@, i as int, hr_recent_stepper()); }
        i = i + 1;
    }
    proof { lemma_fold_rows_all(m1, rows@, hr_recent_stepper()); }
    let ghost m2 = map.view();

    let rows = &hr.pending_updates.sample;
    let mut i: usize = 0;
    while i < rows.len()
        invariant
            i <= rows@.len(),
            map.view() == fold_rows(m2, rows@.take(i as int), hr_sample_stepper()),
        decreases rows.len() - i,
    {
        let e = &rows[i];
        let value = pipe2_string(e.name.as_str(), e.department.as_str());
        let key = id_or_name_key("hr.pending_updates.sample.", e.id, "hr.pending_updates.sample.name.", value.as_str());
        map.insert(key, value);
        proof { lemma_fold_rows_step(m2, rows@, i as int, hr_sample_stepper()); }
        i = i + 1;
    }
    proof { lemma_fold_rows_all(m2, rows@, hr_sample_stepper()); }
    let ghost m3 = map.view();

    let rows = &hr.compliance_alerts.top_risks;
    let mut i: usize = 0;
    while i < rows.len()
        invariant
            i <= rows@.len(),
            map.view() == fold_rows(m3, rows@.take(i as int), hr_risk_stepper()),
        decreases rows.len() - i,
    {
        let r = &rows[i];
        let amount = i64_text(r.variance_amount);
        let value = pipe2_string(r.name.as_str(), amount.as_str());
        let key = id_or_name_key("hr.compliance_alerts.top_risks.", r.resource_id, "hr.compliance_alerts.top_risks.name.", value.as_str());
        map.insert(key, value);
        proof { lemma_fold_rows_step(m3, rows@, i as int, hr_risk_stepper()); }
        i = i + 1;
    }
    proof { lemma_fold_rows_all(m3, rows@, hr_risk_stepper()); }
}

} // verus!

verus! {

/// Is the member shown as underutilized (reported so, or below 50%)?
pub open spec fn shown_underutilized(m: TeamUtilizationMember) -> bool {
    m.is_underutilized || m.below_underutilized_threshold
}

/// Number of members shown as underutilized.
pub open spec fn underutilized_count(rows: Seq<TeamUtilizationMember>) -> nat
    decreases rows.len(),
{
    if rows.len() == 0 {
        0
    } else {
        underutilized_count(rows.drop_last()) + if shown_underutilized(rows.last()) { 1nat } else { 0nat }
    }
}

/// `a|b` for an at-risk member.
pub open spec fn at_risk_value(r: UtilizationAtRisk) -> Seq<char> {
    pipe2(r.resource_name@, r.current_allocation_pct_text@)
}

pub open spec fn dh_top_at_risk_step(m: Map<Seq<char>, Seq<char>>, r: UtilizationAtRisk) -> Map<Seq<char>, Seq<char>> {
    m.insert(id_or_name("department_head.top_at_risk."@, r.resource_id, "department_head.top_at_risk.name."@, r.resource_name@), at_risk_value(r))
}

pub open spec fn dh_top_at_risk_stepper() -> spec_fn(Map<Seq<char>, Seq<char>>, UtilizationAtRisk) -> Map<Seq<char>, Seq<char>> {
    |m: Map<Seq<char>, Seq<char>>, r: UtilizationAtRisk| dh_top_at_risk_step(m, r)
}

pub open spec fn dh_overalloc_step(m: Map<Seq<char>, Seq<char>>, r: UtilizationAtRisk) -> Map<Seq<char>, Seq<char>> {
    m.insert(id_or_name("department_head.overallocations.member."@, r.resource_id, "department_head.overallocations.member.name."@, r.resource_name@), at_risk_value(r))
}

pub open spec fn dh_overalloc_stepper() -> spec_fn(Map<Seq<char>, Seq<char>>, UtilizationAtRisk) -> Map<Seq<char>, Seq<char>> {
    |m: Map<Seq<char>, Seq<char>>, r: UtilizationAtRisk| dh_overalloc_step(m, r)
}

/// Fallback key part of an assignment: resource, project and dates.
pub open spec fn assignment_name_part(a: UpcomingAssignment) -> Seq<char> {
    a.resource_name@ + "|"@ + a.project_name@ + "|"@ + a.start_date@ + "|"@ + a.end_date@
}

/// Shown value of an assignment.
pub open spec fn assignment_value(a: UpcomingAssignment) -> Seq<char> {
    a.resource_name@ + "|"@ + a.project_name@ + "|"@ + a.allocation_percentage_text@ + "|"@ + a.start_date@ + "|"@ + a.end_date@
}

pub open spec fn dh_upcoming_step(m: Map<Seq<char>, Seq<char>>, a: UpcomingAssignment) -> Map<Seq<char>, Seq<char>> {
    m.insert(id_or_name("department_head.upcoming_assignments."@, a.allocation_id, "department_head.upcoming_assignments.name."@, assignment_name_part(a)), assignment_value(a))
}

pub open spec fn dh_upcoming_stepper() -> spec_fn(Map<Seq<char>, Seq<char>>, UpcomingAssignment) -> Map<Seq<char>, Seq<char>> {
    |m: Map<Seq<char>, Seq<char>>, a: UpcomingAssignment| dh_upcoming_step(m, a)
}

/// The entries of one team member row.
pub open spec fn dh_member_step(m: Map<Seq<char>, Seq<char>>, t: TeamUtilizationMember) -> Map<Seq<char>, Seq<char>> {
    let k = team_member_key_spec(t);
    m.insert(k + ".resource_name"@, t.resource_name@)
        .insert(k + ".role"@, t.role@)
        .insert(k + ".current_utilization_pct"@, t.current_utilization_pct_text@)
        .insert(k + ".available_capacity_pct"@, t.available_capacity_pct_text@)
        .insert(k + ".is_underutilized"@, bool_text(shown_underutilized(t)))
        .insert(k + ".is_overallocated"@, bool_text(t.is_overallocated))
        .insert(k + ".ctc_status"@, t.ctc_status@)
        .insert(k + ".current_projects"@, t.current_projects_summary@)
}

pub open spec fn dh_member_stepper() -> spec_fn(Map<Seq<char>, Seq<char>>, TeamUtilizationMember) -> Map<Seq<char>, Seq<char>> {
    |m: Map<Seq<char>, Seq<char>>, t: TeamUtilizationMember| dh_member_step(m, t)
}

/// Entry of one trend cell of `member`.
pub open spec fn dh_period_stepper(member: TeamUtilizationTrend) -> spec_fn(Map<Seq<char>, Seq<char>>, TeamUtilizationTrendPeriod) -> Map<Seq<char>, Seq<char>> {
    |m: Map<Seq<char>, Seq<char>>, p: TeamUtilizationTrendPeriod| m.insert(trend_period_key_spec(member, p.period@), p.utilization_pct_text@)
}

/// Entries of all trend cells of one member.
pub open spec fn dh_trend_member_step(m: Map<Seq<char>, Seq<char>>, t: TeamUtilizationTrend) -> Map<Seq<char>, Seq<char>> {
    fold_rows(m, t.periods@, dh_period_stepper(t))
}

pub open spec fn dh_trend_member_stepper() -> spec_fn(Map<Seq<char>, Seq<char>>, TeamUtilizationTrend) -> Map<Seq<char>, Seq<char>> {
    |m: Map<Seq<char>, Seq<char>>, t: TeamUtilizationTrend| dh_trend_member_step(m, t)
}

/// Budget figures shown on the summary card.
pub open spec fn dh_budget_summary(m: Map<Seq<char>, Seq<char>>, b: Option<DepartmentBudgetSummary>) -> Map<Seq<char>, Seq<char>> {
    match b {
        Some(b) => m.insert("department_head.budget.utilization_percentage"@, b.utilization_percentage_text@)
            .insert("department_head.budget.remaining_idr"@, int_text(b.remaining_idr as int))
            .insert("department_head.budget.total_committed_idr"@, int_text(b.total_committed_idr as int))
            .insert("department_head.budget.total_budget_idr"@, int_text(b.total_budget_idr as int))
            .insert("department_head.budget.budget_health"@, b.budget_health@),
        None => m,
    }
}

/// Budget figures shown on the gauge.
pub open spec fn dh_budget_gauge(m: Map<Seq<char>, Seq<char>>, b: Option<DepartmentBudgetSummary>) -> Map<Seq<char>, Seq<char>> {
    match b {
        Some(b) => m.insert("department_head.budget.spent_actual_idr"@, int_text(b.spent_actual_idr as int))
            .insert("department_head.budget.alert_threshold_pct"@, int_text(b.alert_threshold_pct as int)),
        None => m,
    }
}

/// The department-head entries, in the order the page computes them.
pub open spec fn dh_entries(m: Map<Seq<char>, Seq<char>>, dh: DepartmentHeadDashboard) -> Map<Seq<char>, Seq<char>> {
    let m1 = m.insert("department_head.utilization.average_utilization_pct"@, dh.utilization.average_utilization_pct_text@)
        .insert("department_head.utilization.overallocated_count"@, int_text(dh.utilization.overallocated_count as int))
        .insert("department_head.overallocations.overallocated_count"@, int_text(dh.overallocations.overallocated_count as int));
    let m2 = dh_budget_summary(m1, dh.budget);
    let m3 = fold_rows(m2, dh.utilization.top_at_risk@, dh_top_at_risk_stepper());
    let m4 = fold_rows(m3, dh.overallocations.members@, dh_overalloc_stepper());
    let m5 = fold_rows(m4, dh.upcoming_assignments@, dh_upcoming_stepper());
    let m6 = m5.insert("department_head.team.member_count"@, int_text(dh.team_members@.len() as int))
        .insert("department_head.team.underutilized_count"@, int_text(underutilized_count(dh.team_members@) as int))
        .insert("department_head.team.avg_available_capacity_pct"@, dh.avg_available_capacity_pct_text@);
    let m7 = fold_rows(m6, dh.team_members@, dh_member_stepper());
    let m8 = match dh.utilization_trends {
        Some(t) => fold_rows(m7, t.members@, dh_trend_member_stepper()),
        None => m7,
    };
    dh_budget_gauge(m8, dh.budget)
}

fn put_at_risk_rows(map: &mut ValueMap, rows: &Vec<UtilizationAtRisk>, id_prefix: &str, name_prefix: &str,
    Ghost(step): Ghost<spec_fn(Map<Seq<char>, Seq<char>>, UtilizationAtRisk) -> Map<Seq<char>, Seq<char>>>)
    requires
        forall|m: Map<Seq<char>, Seq<char>>, r: UtilizationAtRisk| #[trigger] step(m, r) == m.insert(
            id_or_name(id_prefix@, r.resource_id, name_prefix@, r.resource_name@), at_risk_value(r)),
    ensures
        final(map).view() == fold_rows(old(map).view(), rows@, step),
{
    let ghost m0 = map.view();
    let mut i: usize = 0;
    while i < rows.len()
        invariant
            i <= rows@.len(),
            forall|m: Map<Seq<char>, Seq<char>>, r: UtilizationAtRisk| #[trigger] step(m, r) == m.insert(
                id_or_name(id_prefix@, r.resource_id, name_prefix@, r.resource_name@), at_risk_value(r)),
            map.view() == fold_rows(m0, rows@.take(i as int), step),
        decreases rows.len() - i,
    {
        let r = &rows[i];
        let key = id_or_name_key(id_prefix, r.resource_id, name_prefix, r.resource_name.as_str());
        let value = pipe2_string(r.resource_name.as_str(), r.current_allocation_pct_text.as_str());
        map.insert(key, value);
        proof { lemma_fold_rows_step(m0, rows@, i as int, step); }
        i = i + 1;
    }
    proof { lemma_fold_rows_all(m0, rows@, step); }
}

fn put_member(map: &mut ValueMap, t: &TeamUtilizationMember)
    ensures
        final(map).view() == dh_member_step(old(map).view(), *t),
{
    let k = team_member_key(t);
    map.insert(cat(k.as_str(), ".resource_name"), t.resource_name.clone());
    map.insert(cat(k.as_str(), ".role"), t.role.clone());
    map.insert(cat(k.as_str(), ".current_utilization_pct"), t.current_utilization_pct_text.clone());
    map.insert(cat(k.as_str(), ".available_capacity_pct"), t.available_capacity_pct_text.clone());
    map.insert(cat(k.as_str(), ".is_underutilized"), bool_string(t.is_underutilized || t.below_underutilized_threshold));
    map.insert(cat(k.as_str(), ".is_overallocated"), bool_string(t.is_overallocated));
    map.insert(cat(k.as_str(), ".ctc_status"), t.ctc_status.clone());
    map.insert(cat(k.as_str(), ".current_projects"), t.current_projects_summary.clone());
}

fn put_trend_member(map: &mut ValueMap, t: &TeamUtilizationTrend)
    ensures
        final(map).view() == dh_trend_member_step(old(map).view(), *t),
{
    let ghost m0 = map.view();
    let rows = &t.periods;
    let mut i: usize = 0;
    while i < rows.len()
        invariant
            i <= rows@.len(),
            rows@ == t.periods@,
            map.view() == fold_rows(m0, rows@.take(i as int), dh_period_stepper(*t)),
        decreases rows.len() - i,
    {
        let p = &rows[i];
        let key = trend_period_key(t, p.period.as_str());
        map.insert(key, p.utilization_pct_text.clone());
        proof { lemma_fold_rows_step(m0, rows@, i as int, dh_period_stepper(*t)); }
        i = i + 1;
    }
    proof { lemma_fold_rows_all(m0, rows@, dh_period_stepper(*t)); }
}

/// Number of members shown as underutilized.
pub fn count_underutilized(rows: &Vec<TeamUtilizationMember>) -> (r: usize)
    ensures
        r == underutilized_count(rows@),
{
    let mut n: usize = 0;
    let mut i: usize = 0;
    while i < rows.len()
        invariant
            i <= rows@.len(),
            n == underutilized_count(rows@.take(i as int)),
            n <= i,
        decreases rows.len() - i,
    {
        assert(rows@.take(i + 1).drop_last() =~= rows@.take(i as int));
        if rows[i].is_underutilized || rows[i].below_underutilized_threshold {
            n = n + 1;
        }
        i = i + 1;
    }
    assert(rows@.take(rows@.len() as int) =~= rows@);
    n
}

fn put_dh(map: &mut ValueMap, dh: &DepartmentHeadDashboard)
    ensures
        final(map).view() == dh_entries(old(map).view(), *dh),
{
    put(map, "department_head.utilization.average_utilization_pct", dh.utilization.average_utilization_pct_text.clone());
    put_i64(map, "department_head.utilization.overallocated_count", dh.utilization.overallocated_count);
    put_i64(map, "department_head.overallocations.overallocated_count", dh.overallocations.overallocated_count);
    match &dh.budget {
        Some(b) => {
            put(map, "department_head.budget.utilization_percentage", b.utilization_percentage_text.clone());
            put_i64(map, "department_head.budget.remaining_idr", b.remaining_idr);
            put_i64(map, "department_head.budget.total_committed_idr", b.total_committed_idr);
            put_i64(map, "department_head.budget.total_budget_idr", b.total_budget_idr);
            put(map, "department_head.budget.budget_health", b.budget_health.clone());
        },
        None => {},
    }
    put_at_risk_rows(map, &dh.utilization.top_at_risk, "department_head.top_at_risk.", "department_head.top_at_risk.name.", Ghost(dh_top_at_risk_stepper()));
    put_at_risk_rows(map, &dh.overallocations.members, "department_head.overallocations.member.", "department_head.overallocations.member.name.", Ghost(dh_overalloc_stepper()));

    let ghost m5 = map.view();
    let rows = &dh.upcoming_assignments;
    let mut i: usize = 0;
    while i < rows.len()
        invariant
            i <= rows@.len(),
            map.view() == fold_rows(m5, rows@.take(i as int), dh_upcoming_stepper()),
        decreases rows.len() - i,
    {
        let a = &rows[i];
        let mut nv = chars_of(a.resource_name.as_str());
        append_str(&mut nv, "|");
        append_str(&mut nv, a.project_name.as_str());
        append_str(&mut nv, "|");
        append_str(&mut nv, a.start_date.as_str());
        append_str(&mut nv, "|");
        append_str(&mut nv, a.end_date.as_str());
        let name_part = string_from_chars(&nv);
        let key = id_or_name_key("department_head.upcoming_assignments.", a.allocation_id, "department_head.upcoming_assignments.name.", name_part.as_str());
        let mut vv = chars_of(a.resource_name.as_str());
        append_str(&mut vv, "|");
        append_str(&mut vv, a.project_name.as_str());
        append_str(&mut vv, "|");
        append_str(&mut vv, a.allocation_percentage_text.as_str());
        append_str(&mut vv, "|");
        append_str(&mut vv, a.start_date.as_str());
        append_str(&mut vv, "|");
        append_str(&mut vv, a.end_date.as_str());
        let value = string_from_chars(&vv);
        map.insert(key, value);
        proof { lemma_fold_rows_step(m5, rows@, i as int, dh_upcoming_stepper()); }
        i = i + 1;
    }
    proof { lemma_fold_rows_all(m5, rows@, dh_upcoming_stepper()); }

    map.insert(owned("department_head.team.member_count"), usize_text(dh.team_members.len()));
    let under = count_underutilized(&dh.team_members);
    map.insert(owned("department_head.team.underutilized_count"), usize_text(under));
    put(map, "department_head.team.avg_available_capacity_pct", dh.avg_available_capacity_pct_text.clone());

    let ghost m6 = map.view();
    let rows = &dh.team_members;
    let mut i: usize = 0;
    while i < rows.len()
        invariant
            i <= rows@.len(),
            map.view() == fold_rows(m6, rows@.take(i as int), dh_member_stepper()),
        decreases rows.len() - i,
    {
        put_member(map, &rows[i]);
        proof { lemma_fold_rows_step(m6, rows@, i as int, dh_member_stepper()); }
        i = i + 1;
    }
    proof { lemma_fold_rows_all(m6, rows@, dh_member_stepper()); }

    match &dh.utilization_trends {
        Some(trend) => {
            let ghost m7 = map.view();
            let rows = &trend.members;
            let mut i: usize = 0;
            while i < rows.len()
                invariant
                    i <= rows@.len(),
                    map.view() == fold_rows(m7, rows@.take(i as int), dh_trend_member_stepper()),
                decreases rows.len() - i,
            {
                put_trend_member(map, &rows[i]);
                proof { lemma_fold_rows_step(m7, rows@, i as int, dh_trend_member_stepper()); }
                i = i + 1;
            }
            proof { lemma_fold_rows_all(m7, rows@, dh_trend_member_stepper()); }
        },
        None => {},
    }

    match &dh.budget {
        Some(b) => {
            put_i64(map, "department_head.budget.spent_actual_idr", b.spent_actual_idr);
            map.insert(owned("department_head.budget.alert_threshold_pct"), i32_text(b.alert_threshold_pct));
        },
        None => {},
    }
}

} // verus!

verus! {

/// Key part of a project: its id, else `name.<project name>`.
pub open spec fn project_id_key(id: Option<u128>, name: Seq<char>) -> Seq<char> {
    id_or_name(Seq::empty(), id, "name."@, name)
}

/// Entries of one project card.
pub open spec fn pm_project_step(m: Map<Seq<char>, Seq<char>>, c: ProjectHealthCard) -> Map<Seq<char>, Seq<char>> {
    let k = "project_manager.project."@ + project_id_key(c.project_id, c.project_name@);
    m.insert(k + ".margin_pct"@, c.margin_pct_text@)
        .insert(k + ".project_name"@, c.project_name@)
        .insert(k + ".status"@, c.status@)
        .insert(k + ".end_date"@, c.end_date@)
        .insert(k + ".total_budget_idr"@, int_text(c.total_budget_idr as int))
        .insert(k + ".budget_spent_idr"@, int_text(c.budget_spent_idr as int))
        .insert(k + ".gross_profit_idr"@, int_text(c.gross_profit_idr as int))
        .insert(k + ".budget_status"@, c.budget_status@)
        .insert(k + ".budget_remaining_idr"@, int_text(c.budget_remaining_idr as int))
        .insert(k + ".total_revenue_idr"@, int_text(c.total_revenue_idr as int))
        .insert(k + ".total_cost_idr"@, int_text(c.total_cost_idr as int))
        .insert(k + ".warning"@, opt_text(c.warning))
        .insert(k + ".margin_alert"@, opt_text(c.margin_alert))
        .insert(k + ".budget_utilization_pct"@, c.budget_utilization_pct_text@)
        .insert(k + ".is_over_budget"@, bool_text(c.is_over_budget))
        .insert(k + ".budget_overrun_idr"@, int_text(c.budget_overrun_idr as int))
        .insert(k + ".forecast_margin_pct"@, c.forecast_margin_pct_text@)
        .insert(k + ".forecast_variance_from_target_pct"@, c.forecast_variance_from_target_pct_text@)
        .insert(k + ".projected_total_cost_idr"@, int_text(c.projected_total_cost_idr as int))
        .insert(k + ".forecast_unavailable"@, bool_text(c.forecast_unavailable))
        .insert(k + ".forecast_has_revenue_signal"@, bool_text(c.forecast_has_revenue_signal))
        .insert(k + ".health_status"@, c.health_status@)
        .insert(k + ".target_margin_pct"@, c.target_margin_pct_text@)
        .insert(k + ".margin_alert_threshold_pct"@, c.margin_alert_threshold_pct_text@)
}

pub open spec fn pm_project_stepper() -> spec_fn(Map<Seq<char>, Seq<char>>, ProjectHealthCard) -> Map<Seq<char>, Seq<char>> {
    |m: Map<Seq<char>, Seq<char>>, c: ProjectHealthCard| pm_project_step(m, c)
}

pub open spec fn pm_alert_step(m: Map<Seq<char>, Seq<char>>, a: MarginAlert) -> Map<Seq<char>, Seq<char>> {
    m.insert("project_manager.margin_alert."@ + project_id_key(a.project_id, a.project_name@), pipe2(a.margin_pct_text@, a.message@))
}

pub open spec fn pm_alert_stepper() -> spec_fn(Map<Seq<char>, Seq<char>>, MarginAlert) -> Map<Seq<char>, Seq<char>> {
    |m: Map<Seq<char>, Seq<char>>, a: MarginAlert| pm_alert_step(m, a)
}

/// The project-manager entries.
pub open spec fn pm_entries(m: Map<Seq<char>, Seq<char>>, pm: ProjectManagerDashboard) -> Map<Seq<char>, Seq<char>> {
    let m1 = m.insert("project_manager.active_projects.count"@, int_text(pm.active_projects@.len() as int))
        .insert("project_manager.margin_alerts.count"@, int_text(pm.margin_alerts@.len() as int));
    let m2 = fold_rows(m1, pm.active_projects@, pm_project_stepper());
    fold_rows(m2, pm.margin_alerts@, pm_alert_stepper())
}

fn put_kv(map: &mut ValueMap, k: &str, field: &str, value: String)
    ensures
        final(map).view() == old(map).view().insert(k@ + field@, value@),
{
    map.insert(cat(k, field), value);
}

fn put_project(map: &mut ValueMap, c: &ProjectHealthCard)
    ensures
        final(map).view() == pm_project_step(old(map).view(), *c),
{
    let id_key = id_or_name_key("", c.project_id, "name.", c.project_name.as_str());
    proof { reveal_strlit(""); }
    assert(id_key@ == project_id_key(c.project_id, c.project_name@));
    let k = cat("project_manager.project.", id_key.as_str());
    let k = k.as_str();
    put_kv(map, k, ".margin_pct", c.margin_pct_text.clone());
    put_kv(map, k, ".project_name", c.project_name.clone());
    put_kv(map, k, ".status", c.status.clone());
    put_kv(map, k, ".end_date", c.end_date.clone());
    put_kv(map, k, ".total_budget_idr", i64_text(c.total_budget_idr));
    put_kv(map, k, ".budget_spent_idr", i64_text(c.budget_spent_idr));
    put_kv(map, k, ".gross_profit_idr", i64_text(c.gross_profit_idr));
    put_kv(map, k, ".budget_status", c.budget_status.clone());
    put_kv(map, k, ".budget_remaining_idr", i64_text(c.budget_remaining_idr));
    put_kv(map, k, ".total_revenue_idr", i64_text(c.total_revenue_idr));
    put_kv(map, k, ".total_cost_idr", i64_text(c.total_cost_idr));
    put_kv(map, k, ".warning", opt_string(&c.warning));
    put_kv(map, k, ".margin_alert", opt_string(&c.margin_alert));
    put_kv(map, k, ".budget_utilization_pct", c.budget_utilization_pct_text.clone());
    put_kv(map, k, ".is_over_budget", bool_string(c.is_over_budget));
    put_kv(map, k, ".budget_overrun_idr", i64_text(c.budget_overrun_idr));
    put_kv(map, k, ".forecast_margin_pct", c.forecast_margin_pct_text.clone());
    put_kv(map, k, ".forecast_variance_from_target_pct", c.forecast_variance_from_target_pct_text.clone());
    put_kv(map, k, ".projected_total_cost_idr", i64_text(c.projected_total_cost_idr));
    put_kv(map, k, ".forecast_unavailable", bool_string(c.forecast_unavailable));
    put_kv(map, k, ".forecast_has_revenue_signal", bool_string(c.forecast_has_revenue_signal));
    put_kv(map, k, ".health_status", c.health_status.clone());
    put_kv(map, k, ".target_margin_pct", c.target_margin_pct_text.clone());
    put_kv(map, k, ".margin_alert_threshold_pct", c.margin_alert_threshold_pct_text.clone());
}

fn put_pm(map: &mut ValueMap, pm: &ProjectManagerDashboard)
    ensures
        final(map).view() == pm_entries(old(map).view(), *pm),
{
    map.insert(owned("project_manager.active_projects.count"), usize_text(pm.active_projects.len()));
    map.insert(owned("project_manager.margin_alerts.count"), usize_text(pm.margin_alerts.len()));
    let ghost m1 = map.view();
    let rows = &pm.active_projects;
    let mut i: usize = 0;
    while i < rows.len()
        invariant
            i <= rows@.len(),
            map.view() == fold_rows(m1, rows@.take(i as int), pm_project_stepper()),
        decreases rows.len() - i,
    {
        put_project(map, &rows[i]);
        proof { lemma_fold_rows_step(m1, rows@, i as int, pm_project_stepper()); }
        i = i + 1;
    }
    proof { lemma_fold_rows_all(m1, rows@, pm_project_stepper()); }
    let ghost m2 = map.view();
    let rows = &pm.margin_alerts;
    let mut i: usize = 0;
    while i < rows.len()
        invariant
            i <= rows@.len(),
            map.view() == fold_rows(m2, rows@.take(i as int), pm_alert_stepper()),
        decreases rows.len() - i,
    {
        let a = &rows[i];
        let id_key = id_or_name_key("", a.project_id, "name.", a.project_name.as_str());
        proof { reveal_strlit(""); }
        assert(id_key@ == project_id_key(a.project_id, a.project_name@));
        let key = cat("project_manager.margin_alert.", id_key.as_str());
        let value = pipe2_string(a.margin_pct_text.as_str(), a.message.as_str());
        map.insert(key, value);
        proof { lemma_fold_rows_step(m2, rows@, i as int, pm_alert_stepper()); }
        i = i + 1;
    }
    proof { lemma_fold_rows_all(m2, rows@, pm_alert_stepper()); }
}

/// An optional count, `none` when absent.
pub open spec fn opt_count_text(o: Option<i64>) -> Seq<char> {
    match o {
        Some(v) => int_text(v as int),
        None => "none"@,
    }
}

fn opt_count_string(o: Option<i64>) -> (r: String)
    ensures
        r@ == opt_count_text(o),
{
    match o {
        Some(v) => i64_text(v),
        None => owned("none"),
    }
}

/// Sum of the four alert counts.
pub open spec fn audit_alert_total(a: AuditAlertsSummary) -> int {
    a.access_denied_count + a.login_failed_count + a.login_blocked_count + a.chain_verification_failure_count
}

/// The running sums of the alert counts stay within `i64`.
pub open spec fn audit_alert_total_fits(a: AuditAlertsSummary) -> bool {
    &&& i64::MIN <= a.access_denied_count + a.login_failed_count <= i64::MAX
    &&& i64::MIN <= a.access_denied_count + a.login_failed_count + a.login_blocked_count <= i64::MAX
    &&& i64::MIN <= audit_alert_total(a) <= i64::MAX
}

pub open spec fn fin_recent_step(m: Map<Seq<char>, Seq<char>>, e: AuditAlertEntry) -> Map<Seq<char>, Seq<char>> {
    let v = pipe3(e.action@, e.entity_type@, e.created_at@);
    m.insert(id_or_name("finance.audit_alerts.recent."@, e.id, "finance.audit_alerts.recent."@, v), v)
}

pub open spec fn fin_recent_stepper() -> spec_fn(Map<Seq<char>, Seq<char>>, AuditAlertEntry) -> Map<Seq<char>, Seq<char>> {
    |m: Map<Seq<char>, Seq<char>>, e: AuditAlertEntry| fin_recent_step(m, e)
}

pub open spec fn fin_pending_step(m: Map<Seq<char>, Seq<char>>, p: PendingExportRequest) -> Map<Seq<char>, Seq<char>> {
    m.insert(
        id_or_name("finance.export_requests.latest."@, p.id, "finance.export_requests.latest."@, pipe2(p.status@, p.created_at@)),
        pipe3(p.status@, opt_text(p.report_type), p.created_at@),
    )
}

pub open spec fn fin_pending_stepper() -> spec_fn(Map<Seq<char>, Seq<char>>, PendingExportRequest) -> Map<Seq<char>, Seq<char>> {
    |m: Map<Seq<char>, Seq<char>>, p: PendingExportRequest| fin_pending_step(m, p)
}

/// The finance entries.
pub open spec fn finance_entries(m: Map<Seq<char>, Seq<char>>, f: FinanceDashboard) -> Map<Seq<char>, Seq<char>> {
    let m1 = m.insert("finance.cash_position.ending_cumulative_position_idr"@, int_text(f.cash_position.ending_cumulative_position_idr as int))
        .insert("finance.cash_position.net_cash_flow_idr"@, int_text(f.cash_position.net_cash_flow_idr as int))
        .insert("finance.cash_position.total_cash_in_idr"@, int_text(f.cash_position.total_cash_in_idr as int))
        .insert("finance.cash_position.total_cash_out_idr"@, int_text(f.cash_position.total_cash_out_idr as int))
        .insert("finance.ctc_validation.status"@, f.ctc_validation.status@)
        .insert("finance.ctc_validation.match_rate_pct"@, match f.ctc_validation.match_rate_pct_text {
            Some(t) => t@,
            None => "none"@,
        })
        .insert("finance.ctc_validation.total_compared"@, opt_count_text(f.ctc_validation.total_compared))
        .insert("finance.ctc_validation.total_matches"@, opt_count_text(f.ctc_validation.total_matches))
        .insert("finance.ctc_validation.total_discrepancies"@, opt_count_text(f.ctc_validation.total_discrepancies))
        .insert("finance.audit_alerts.total"@, int_text(audit_alert_total(f.audit_alerts)))
        .insert("finance.audit_alerts.access_denied_count"@, int_text(f.audit_alerts.access_denied_count as int))
        .insert("finance.audit_alerts.login_failed_count"@, int_text(f.audit_alerts.login_failed_count as int))
        .insert("finance.audit_alerts.login_blocked_count"@, int_text(f.audit_alerts.login_blocked_count as int))
        .insert("finance.audit_alerts.chain_verification_failure_count"@, int_text(f.audit_alerts.chain_verification_failure_count as int))
        .insert("finance.export_requests.pending_count"@, int_text(f.export_requests.pending_count as int));
    let m2 = fold_rows(m1, f.audit_alerts.recent@, fin_recent_stepper());
    fold_rows(m2, f.export_requests.latest_pending@, fin_pending_stepper())
}

fn put_finance(map: &mut ValueMap, f: &FinanceDashboard)
    requires
        audit_alert_total_fits(f.audit_alerts),
    ensures
        final(map).view() == finance_entries(old(map).view(), *f),
{
    put_i64(map, "finance.cash_position.ending_cumulative_position_idr", f.cash_position.ending_cumulative_position_idr);
    put_i64(map, "finance.cash_position.net_cash_flow_idr", f.cash_position.net_cash_flow_idr);
    put_i64(map, "finance.cash_position.total_cash_in_idr", f.cash_position.total_cash_in_idr);
    put_i64(map, "finance.cash_position.total_cash_out_idr", f.cash_position.total_cash_out_idr);
    put(map, "finance.ctc_validation.status", f.ctc_validation.status.clone());
    match &f.ctc_validation.match_rate_pct_text {
        Some(t) => put(map, "finance.ctc_validation.match_rate_pct", t.clone()),
        None => put(map, "finance.ctc_validation.match_rate_pct", owned("none")),
    }
    put(map, "finance.ctc_validation.total_compared", opt_count_string(f.ctc_validation.total_compared));
    put(map, "finance.ctc_validation.total_matches", opt_count_string(f.ctc_validation.total_matches));
    put(map, "finance.ctc_validation.total_discrepancies", opt_count_string(f.ctc_validation.total_discrepancies));
    let a = &f.audit_alerts;
    let total = a.access_denied_count + a.login_failed_count + a.login_blocked_count + a.chain_verification_failure_count;
    put_i64(map, "finance.audit_alerts.total", total);
    put_i64(map, "finance.audit_alerts.access_denied_count", a.access_denied_count);
    put_i64(map, "finance.audit_alerts.login_failed_count", a.login_failed_count);
    put_i64(map, "finance.audit_alerts.login_blocked_count", a.login_blocked_count);
    put_i64(map, "finance.audit_alerts.chain_verification_failure_count", a.chain_verification_failure_count);
    put_i64(map, "finance.export_requests.pending_count", f.export_requests.pending_count);
    let ghost m1 = map.view();
    let rows = &f.audit_alerts.recent;
    let mut i: usize = 0;
    while i < rows.len()
        invariant
            i <= rows@.len(),
            map.view() == fold_rows(m1, rows@.take(i as int), fin_recent_stepper()),
        decreases rows.len() - i,
    {
        let e = &rows[i];
        let value = pipe3_string(e.action.as_str(), e.entity_type.as_str(), e.created_at.as_str());
        let key = id_or_name_key("finance.audit_alerts.recent.", e.id, "finance.audit_alerts.recent.", value.as_str());
        map.insert(key, value);
        proof { lemma_fold_rows_step(m1, rows@, i as int, fin_recent_stepper()); }
        i = i + 1;
    }
    proof { lemma_fold_rows_all(m1, rows@, fin_recent_stepper()); }
    let ghost m2 = map.view();
    let rows = &f.export_requests.latest_pending;
    let mut i: usize = 0;
    while i < rows.len()
        invariant
            i <= rows@.len(),
            map.view() == fold_rows(m2, rows@.take(i as int), fin_pending_stepper()),
        decreases rows.len() - i,
    {
        let p = &rows[i];
        let name_part = pipe2_string(p.status.as_str(), p.created_at.as_str());
        let key = id_or_name_key("finance.export_requests.latest.", p.id, "finance.export_requests.latest.", name_part.as_str());
        let rt = opt_string(&p.report_type);
        let value = pipe3_string(p.status.as_str(), rt.as_str(), p.created_at.as_str());
        map.insert(key, value);
        proof { lemma_fold_rows_step(m2, rows@, i as int, fin_pending_stepper()); }
        i = i + 1;
    }
    proof { lemma_fold_rows_all(m2, rows@, fin_pending_stepper()); }
}

/// The admin entries.
pub open spec fn admin_entries(m: Map<Seq<char>, Seq<char>>, a: AdminDashboard) -> Map<Seq<char>, Seq<char>> {
    m.insert("admin.total_users"@, int_text(a.total_users as int))
        .insert("admin.total_departments"@, int_text(a.total_departments as int))
        .insert("admin.total_active_projects"@, int_text(a.total_active_projects as int))
        .insert("admin.total_active_ctc_records"@, int_text(a.total_active_ctc_records as int))
        .insert("admin.pending_export_requests"@, int_text(a.pending_export_requests as int))
        .insert("admin.access_denied_24h"@, int_text(a.access_denied_24h as int))
}

fn put_admin(map: &mut ValueMap, a: &AdminDashboard)
    ensures
        final(map).view() == admin_entries(old(map).view(), *a),
{
    put_i64(map, "admin.total_users", a.total_users);
    put_i64(map, "admin.total_departments", a.total_departments);
    put_i64(map, "admin.total_active_projects", a.total_active_projects);
    put_i64(map, "admin.total_active_ctc_records", a.total_active_ctc_records);
    put_i64(map, "admin.pending_export_requests", a.pending_export_requests);
    put_i64(map, "admin.access_denied_24h", a.access_denied_24h);
}

/// The value map of a dashboard snapshot: every visible figure under a
/// stable key, section by section. The generation timestamp is left out so
/// that a poll that only refreshes it changes nothing.
pub open spec fn dashboard_values(d: RoleDashboardResponse) -> Map<Seq<char>, Seq<char>> {
    let m0 = Map::<Seq<char>, Seq<char>>::empty();
    let m1 = match d.hr { Some(hr) => hr_entries(m0, hr), None => m0 };
    let m2 = match d.department_head { Some(dh) => dh_entries(m1, dh), None => m1 };
    let m3 = match d.project_manager { Some(pm) => pm_entries(m2, pm), None => m2 };
    let m4 = match d.finance { Some(f) => finance_entries(m3, f), None => m3 };
    match d.admin { Some(a) => admin_entries(m4, a), None => m4 }
}

/// The finance alert total can be computed.
pub open spec fn dashboard_fits(d: RoleDashboardResponse) -> bool {
    d.finance matches Some(f) ==> audit_alert_total_fits(f.audit_alerts)
}

/// Builds the value map of a dashboard snapshot, which consecutive polls
/// compare to highlight what changed.
pub fn dashboard_value_map(data: &RoleDashboardResponse) -> (r: ValueMap)
    requires
        dashboard_fits(*data),
    ensures
        r.view() == dashboard_values(*data),
{
    let mut map = ValueMap::new();
    match &data.hr {
        Some(hr) => put_hr(&mut map, hr),
        None => {},
    }
    match &data.department_head {
        Some(dh) => put_dh(&mut map, dh),
        None => {},
    }
    match &data.project_manager {
        Some(pm) => put_pm(&mut map, pm),
        None => {},
    }
    match &data.finance {
        Some(f) => put_finance(&mut map, f),
        None => {},
    }
    match &data.admin {
        Some(a) => put_admin(&mut map, a),
        None => {},
    }
    map
}

} // verus!

verus! {

/// Texts in strictly increasing order (hence without repeats).
pub open spec fn strictly_sorted(v: Seq<String>) -> bool {
    forall|i: int, j: int| 0 <= i < j < v.len() ==> seq_lt(#[trigger] v[i]@, #[trigger] v[j]@)
}

/// Some element has text `t`.
pub open spec fn has_text(v: Seq<String>, t: Seq<char>) -> bool {
    exists|i: int| 0 <= i < v.len() && #[trigger] v[i]@ == t
}

/// Inserts `s` into a strictly sorted list unless it is already there.
pub fn insert_sorted(out: &mut Vec<String>, s: String)
    requires
        strictly_sorted(old(out)@),
    ensures
        strictly_sorted(final(out)@),
        forall|t: Seq<char>| has_text(final(out)@, t) <==> (has_text(old(out)@, t) || t == s@),
{
    let sc = chars_of(s.as_str());
    let mut p: usize = 0;
    while p < out.len()
        invariant
            p <= out@.len(),
            sc@ == s@,
            strictly_sorted(out@),
            forall|k: int| 0 <= k < p ==> seq_lt(#[trigger] out@[k]@, s@),
        ensures
            p <= out@.len(),
            strictly_sorted(out@),
            forall|k: int| 0 <= k < p ==> seq_lt(#[trigger] out@[k]@, s@),
            p < out@.len() ==> !seq_lt(out@[p as int]@, s@),
        decreases out.len() - p,
    {
        let oc = chars_of(out[p].as_str());
        if !chars_lt(&oc, &sc) {
            break;
        }
        p = p + 1;
    }
    if p < out.len() && out[p] == s {
        return;
    }
    let ghost old_v = out@;
    proof {
        if p < old_v.len() {
            lemma_seq_lt_total(old_v[p as int]@, s@);
            // everything from p on sorts after s
            assert forall|k: int| p <= k < old_v.len() implies seq_lt(s@, #[trigger] old_v[k]@) by {
                if k > p {
                    assert(seq_lt(old_v[p as int]@, old_v[k]@));
                    lemma_seq_lt_transitive(s@, old_v[p as int]@, old_v[k]@);
                }
            }
        }
    }
    out.insert(p, s);
    proof {
        let v = out@;
        assert forall|i: int, j: int| 0 <= i < j < v.len() implies seq_lt(#[trigger] v[i]@, #[trigger] v[j]@) by {
            if i < p && j < p {
                assert(seq_lt(old_v[i]@, old_v[j]@));
            } else if i < p && j == p {
            } else if i < p && j > p {
                assert(v[j] == old_v[j - 1]);
                lemma_seq_lt_transitive(old_v[i]@, s@, old_v[j - 1]@);
            } else if i == p {
                assert(v[j] == old_v[j - 1]);
            } else {
                assert(v[i] == old_v[i - 1]);
                assert(v[j] == old_v[j - 1]);
                assert(seq_lt(old_v[i - 1]@, old_v[j - 1]@));
            }
        }
        assert forall|t: Seq<char>| has_text(v, t) <==> (has_text(old_v, t) || t == s@) by {
            if has_text(v, t) {
                let i = choose|i: int| 0 <= i < v.len() && #[trigger] v[i]@ == t;
                if i < p {
                    assert(old_v[i]@ == t);
                } else if i > p {
                    assert(old_v[i - 1]@ == t);
                }
            }
            if has_text(old_v, t) {
                let i = choose|i: int| 0 <= i < old_v.len() && #[trigger] old_v[i]@ == t;
                if i < p {
                    assert(v[i]@ == t);
                } else {
                    assert(v[i + 1]@ == t);
                }
            }
            if t == s@ {
                assert(v[p as int]@ == t);
            }
        }
    }
}

/// Every period that some trend member reports.
pub open spec fn trend_periods(members: Seq<TeamUtilizationTrend>) -> Set<Seq<char>> {
    Set::new(|t: Seq<char>| exists|i: int, j: int| 0 <= i < members.len() && 0 <= j < members[i].periods@.len()
        && #[trigger] members[i].periods@[j].period@ == t)
}

/// The period columns of the trend table: every period any member reports,
/// once, in ascending order.
pub fn trend_period_columns(bundle: &TeamUtilizationTrendBundle) -> (r: Vec<String>)
    ensures
        strictly_sorted(r@),
        forall|t: Seq<char>| has_text(r@, t) <==> trend_periods(bundle.members@).contains(t),
{
    let members = &bundle.members;
    let mut out: Vec<String> = Vec::new();
    let mut i: usize = 0;
    while i < members.len()
        invariant
            i <= members@.len(),
            strictly_sorted(out@),
            forall|t: Seq<char>| has_text(out@, t) <==> exists|a: int, b: int| 0 <= a < i && 0 <= b < members@[a].periods@.len()
                && #[trigger] members@[a].periods@[b].period@ == t,
        decreases members.len() - i,
    {
        let periods = &members[i].periods;
        let mut j: usize = 0;
        while j < periods.len()
            invariant
                i < members@.len(),
                periods@ == members@[i as int].periods@,
                j <= periods@.len(),
                strictly_sorted(out@),
                forall|t: Seq<char>| has_text(out@, t) <==> ((exists|a: int, b: int| 0 <= a < i && 0 <= b < members@[a].periods@.len()
                    && #[trigger] members@[a].periods@[b].period@ == t) || exists|b: int| 0 <= b < j && #[trigger] periods@[b].period@ == t),
            decreases periods.len() - j,
        {
            insert_sorted(&mut out, periods[j].period.clone());
            proof {
                assert forall|t: Seq<char>| has_text(out@, t) <==> ((exists|a: int, b: int| 0 <= a < i && 0 <= b < members@[a].periods@.len()
                    && #[trigger] members@[a].periods@[b].period@ == t) || exists|b: int| 0 <= b < j + 1 && #[trigger] periods@[b].period@ == t) by {
                    if exists|b: int| 0 <= b < j + 1 && #[trigger] periods@[b].period@ == t {
                        let b = choose|b: int| 0 <= b < j + 1 && #[trigger] periods@[b].period@ == t;
                        if b < j {
                            assert(exists|b2: int| 0 <= b2 < j && #[trigger] periods@[b2].period@ == t);
                        }
                    }
                    if exists|b: int| 0 <= b < j && #[trigger] periods@[b].period@ == t {
                        let b = choose|b: int| 0 <= b < j && #[trigger] periods@[b].period@ == t;
                        assert(0 <= b < j + 1 && periods@[b].period@ == t);
                    }
                    if t == periods@[j as int].period@ {
                        assert(0 <= j < j + 1 && periods@[j as int].period@ == t);
                    }
                }
            }
            j = j + 1;
        }
        proof {
            assert forall|t: Seq<char>| has_text(out@, t) <==> exists|a: int, b: int| 0 <= a < i + 1 && 0 <= b < members@[a].periods@.len()
                && #[trigger] members@[a].periods@[b].period@ == t by {
                if exists|a: int, b: int| 0 <= a < i + 1 && 0 <= b < members@[a].periods@.len() && #[trigger] members@[a].periods@[b].period@ == t {
                    let (a, b) = choose|a: int, b: int| 0 <= a < i + 1 && 0 <= b < members@[a].periods@.len() && #[trigger] members@[a].periods@[b].period@ == t;
                    if a == i {
                        assert(periods@[b].period@ == t);
                    } else {
                        assert(exists|a2: int, b2: int| 0 <= a2 < i && 0 <= b2 < members@[a2].periods@.len() && #[trigger] members@[a2].periods@[b2].period@ == t);
                    }
                }
                if has_text(out@, t) {
                    if exists|b: int| 0 <= b < periods@.len() && #[trigger] periods@[b].period@ == t {
                        let b = choose|b: int| 0 <= b < periods@.len() && #[trigger] periods@[b].period@ == t;
                        assert(members@[i as int].periods@[b].period@ == t);
                    } else {
                        let (a, b) = choose|a: int, b: int| 0 <= a < i && 0 <= b < members@[a].periods@.len() && #[trigger] members@[a].periods@[b].period@ == t;
                        assert(0 <= a < i + 1);
                    }
                }
            }
        }
        i = i + 1;
    }
    out
}

} // verus!

verus! {

/// Card `a` sorts strictly before `b` by end date, then project name.
pub open spec fn card_before(a: ProjectHealthCard, b: ProjectHealthCard) -> bool {
    seq_lt(a.end_date@, b.end_date@) || (a.end_date@ == b.end_date@ && seq_lt(a.project_name@, b.project_name@))
}

/// Cards `a` and `b` tie on end date and project name.
pub open spec fn card_tie(a: ProjectHealthCard, b: ProjectHealthCard) -> bool {
    a.end_date@ == b.end_date@ && a.project_name@ == b.project_name@
}

/// `new` is `old` reordered by `perm` (`new[k] == old[perm[k]]`), sorted by
/// end date then project name, with tied cards kept in their old order.
pub open spec fn stable_end_date_order(old: Seq<ProjectHealthCard>, new: Seq<ProjectHealthCard>, perm: Seq<int>) -> bool {
    &&& perm.len() == old.len() == new.len()
    &&& forall|k: int| 0 <= k < perm.len() ==> 0 <= #[trigger] perm[k] < old.len()
    &&& forall|a: int, b: int| 0 <= a < b < perm.len() ==> #[trigger] perm[a] != #[trigger] perm[b]
    &&& forall|k: int| 0 <= k < new.len() ==> #[trigger] new[k] == old[perm[k]]
    &&& forall|a: int, b: int| 0 <= a < b < new.len() ==> card_before(#[trigger] new[a], #[trigger] new[b])
        || (card_tie(new[a], new[b]) && perm[a] < perm[b])
}

proof fn lemma_card_order(a: ProjectHealthCard, b: ProjectHealthCard, c: ProjectHealthCard)
    ensures
        card_before(a, b) && (card_before(b, c) || card_tie(b, c)) ==> card_before(a, c),
        (card_before(a, b) || card_tie(a, b)) && card_before(b, c) ==> card_before(a, c),
        !card_before(a, b) ==> card_before(b, a) || card_tie(a, b),
        card_before(a, b) ==> !card_before(b, a) && !card_tie(a, b),
{
    lemma_seq_lt_transitive(a.end_date@, b.end_date@, c.end_date@);
    lemma_seq_lt_transitive(a.project_name@, b.project_name@, c.project_name@);
    lemma_seq_lt_total(a.end_date@, b.end_date@);
    lemma_seq_lt_total(a.project_name@, b.project_name@);
    lemma_seq_lt_asymmetric(a.end_date@, b.end_date@);
    lemma_seq_lt_asymmetric(a.project_name@, b.project_name@);
    crate::text::lemma_seq_lt_irreflexive(a.end_date@);
    crate::text::lemma_seq_lt_irreflexive(a.project_name@);
}

/// Does card `a` sort strictly before card `b`?
pub fn card_sorts_before(a: &ProjectHealthCard, b: &ProjectHealthCard) -> (r: bool)
    ensures
        r == card_before(*a, *b),
{
    let ae = chars_of(a.end_date.as_str());
    let be = chars_of(b.end_date.as_str());
    if chars_lt(&ae, &be) {
        return true;
    }
    if !crate::text::chars_eq(&ae, &be) {
        return false;
    }
    let an = chars_of(a.project_name.as_str());
    let bn = chars_of(b.project_name.as_str());
    chars_lt(&an, &bn)
}

/// Orders project cards by end date (soonest first), then by project name;
/// cards that tie on both keep their order.
pub fn sort_pm_cards_by_end_date(cards: &mut Vec<ProjectHealthCard>)
    ensures
        exists|perm: Seq<int>| stable_end_date_order(old(cards)@, final(cards)@, perm),
{
    let ghost orig = cards@;
    let n = cards.len();
    let ghost mut perm: Seq<int> = Seq::new(n as nat, |k: int| k);
    let mut i: usize = 0;
    while i < n
        invariant
            i <= n == cards@.len() == orig.len(),
            perm.len() == n,
            forall|k: int| i <= k < n ==> #[trigger] perm[k] == k,
            forall|k: int| 0 <= k < i ==> 0 <= #[trigger] perm[k] < i,
            forall|a: int, b: int| 0 <= a < b < n ==> #[trigger] perm[a] != #[trigger] perm[b],
            forall|k: int| 0 <= k < n ==> #[trigger] cards@[k] == orig[perm[k]],
            forall|a: int, b: int| 0 <= a < b < i ==> card_before(#[trigger] cards@[a], #[trigger] cards@[b])
                || (card_tie(cards@[a], cards@[b]) && perm[a] < perm[b]),
        decreases n - i,
    {
        let x = cards.remove(i);
        let ghost before = cards@;
        let mut p: usize = 0;
        while p < i
            invariant
                p <= i < n,
                cards@ == before,
                before.len() == n - 1,
                forall|k: int| 0 <= k < p ==> !card_before(x, #[trigger] before[k]),
            ensures
                p <= i,
                forall|k: int| 0 <= k < p ==> !card_before(x, #[trigger] before[k]),
                p < i ==> card_before(x, before[p as int]),
            decreases i - p,
        {
            if card_sorts_before(&x, &cards[p]) {
                break;
            }
            p = p + 1;
        }
        cards.insert(p, x);
        proof {
            let old_perm = perm;
            let np = old_perm.remove(i as int).insert(p as int, i as int);
            let c = cards@;
            assert forall|k: int| i + 1 <= k < n implies #[trigger] np[k] == k by {
                assert(np[k] == old_perm[k]);
            }
            assert forall|k: int| 0 <= k < i + 1 implies 0 <= #[trigger] np[k] < i + 1 by {
                if k < p { assert(np[k] == old_perm[k]); }
                else if k > p { assert(np[k] == old_perm[k - 1]); }
            }
            assert forall|a: int, b: int| 0 <= a < b < n implies #[trigger] np[a] != #[trigger] np[b] by {
                let oa = if a < p { a } else if a == p { i as int } else if a <= i { a - 1 } else { a };
                let ob = if b < p { b } else if b == p { i as int } else if b <= i { b - 1 } else { b };
                assert(np[a] == old_perm[oa]);
                assert(np[b] == old_perm[ob]);
                assert(oa != ob);
                if oa < ob { assert(old_perm[oa] != old_perm[ob]); } else { assert(old_perm[ob] != old_perm[oa]); }
            }
            assert forall|k: int| 0 <= k < n implies #[trigger] c[k] == orig[np[k]] by {
                if k < p {
                    assert(c[k] == before[k]);
                    assert(before[k] == orig[old_perm[k]]);
                } else if k == p {
                    assert(c[k] == x);
                } else if k <= i {
                    assert(c[k] == before[k - 1]);
                    assert(np[k] == old_perm[k - 1]);
                } else {
                    assert(c[k] == before[k - 1]);
                    assert(before[k - 1] == orig[old_perm[k]]);
                }
            }
            assert forall|a: int, b: int| 0 <= a < b < i + 1 implies card_before(#[trigger] c[a], #[trigger] c[b])
                || (card_tie(c[a], c[b]) && np[a] < np[b]) by {
                if a < p && b < p {
                    assert(c[a] == before[a] && c[b] == before[b]);
                } else if a < p && b == p {
                    lemma_card_order(before[a], x, x);
                    assert(!card_before(x, before[a]));
                    assert(np[a] == old_perm[a]);
                } else if a < p && b > p {
                    // a before b in the old prefix too
                    assert(c[b] == before[b - 1]);
                } else if a == p {
                    assert(c[b] == before[b - 1]);
                    assert(card_before(x, before[p as int]));
                    if b - 1 > p {
                        lemma_card_order(x, before[p as int], before[b - 1]);
                    }
                } else {
                    assert(c[a] == before[a - 1]);
                    assert(c[b] == before[b - 1]);
                }
            }
            perm = np;
        }
        i = i + 1;
    }
    assert(stable_end_date_order(orig, cards@, perm));
}

} // verus!
