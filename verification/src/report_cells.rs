use vstd::prelude::*;
use crate::text::{owned, cat};
use crate::numbers::{i32_text, int_text};
use crate::ids::{uuid_hyphenated, uuid_text};
use crate::display::{timestamp_text, format_timestamp, pretty_value_text, pretty_value};
use crate::audit::{CtcChangeLogRow, AssignmentHistoryRow, BudgetModificationRow, AccessLogRow, ReportRows};

verus! {

/// The text of an optional string, or `fallback` when absent.
pub open spec fn text_or(o: Option<String>, fallback: Seq<char>) -> Seq<char> {
    match o {
        Some(s) => s@,
        None => fallback,
    }
}

/// The hyphenated text of an optional UUID; empty when absent.
pub open spec fn opt_uuid_text(o: Option<u128>) -> Seq<char> {
    match o {
        Some(u) => uuid_hyphenated(u),
        None => Seq::empty(),
    }
}

/// An optional string, or `fallback` when absent.
pub fn or_fallback(o: &Option<String>, fallback: &str) -> (r: String)
    ensures
        r@ == text_or(*o, fallback@),
{
    match o {
        Some(s) => s.clone(),
        None => owned(fallback),
    }
}

/// An optional UUID as text; empty when absent.
pub fn opt_uuid(o: Option<u128>) -> (r: String)
    ensures
        r@ == opt_uuid_text(o),
{
    match o {
        Some(u) => uuid_text(u),
        None => String::new(),
    }
}

/// The texts of a CTC change-log row, cell by cell, main line then detail
/// line: employee and employee id, editor (`Unknown` when unnamed) and editor
/// id, change time and `rev <n>`, field and revision id, old value, new
/// value, reason.
pub open spec fn ctc_change_log_cells_spec(row: CtcChangeLogRow) -> Seq<Seq<char>> {
    seq![
        row.employee_name@,
        uuid_hyphenated(row.employee_id),
        text_or(row.changed_by_name, "Unknown"@),
        uuid_hyphenated(row.changed_by_id),
        timestamp_text(row.change_date@),
        "rev "@ + int_text(row.revision_number as int),
        row.field@,
        uuid_hyphenated(row.revision_id),
        pretty_value_text(row.old_value),
        pretty_value_text(row.new_value),
        row.reason@,
    ]
}

/// The cell texts of a CTC change-log row.
pub fn ctc_change_log_cells(row: &CtcChangeLogRow) -> (r: Vec<String>)
    ensures
        r@.map_values(|s: String| s@) == ctc_change_log_cells_spec(*row),
{
    let v: Vec<String> = vec![
        row.employee_name.clone(),
        uuid_text(row.employee_id),
        or_fallback(&row.changed_by_name, "Unknown"),
        uuid_text(row.changed_by_id),
        format_timestamp(row.change_date.as_str()),
        cat("rev ", i32_text(row.revision_number).as_str()),
        row.field.clone(),
        uuid_text(row.revision_id),
        pretty_value(&row.old_value),
        pretty_value(&row.new_value),
        row.reason.clone(),
    ];
    assert(v@.map_values(|s: String| s@) =~= ctc_change_log_cells_spec(*row));
    v
}

/// The texts of an assignment-history row: time and audit id, user
/// (`Unknown` when unnamed) and user id, action and allocation id, resource
/// (`—` when unnamed) and resource id, project (`—`) and project id, before
/// and after summaries. Absent ids show as empty text.
pub open spec fn assignment_history_cells_spec(row: AssignmentHistoryRow) -> Seq<Seq<char>> {
    seq![
        timestamp_text(row.timestamp@),
        uuid_hyphenated(row.audit_id),
        text_or(row.user_name, "Unknown"@),
        opt_uuid_text(row.user_id),
        row.action@,
        opt_uuid_text(row.allocation_id),
        text_or(row.resource_name, "—"@),
        opt_uuid_text(row.resource_id),
        text_or(row.project_name, "—"@),
        opt_uuid_text(row.project_id),
        row.before_summary@,
        row.after_summary@,
    ]
}

/// The cell texts of an assignment-history row.
pub fn assignment_history_cells(row: &AssignmentHistoryRow) -> (r: Vec<String>)
    ensures
        r@.map_values(|s: String| s@) == assignment_history_cells_spec(*row),
{
    let v: Vec<String> = vec![
        format_timestamp(row.timestamp.as_str()),
        uuid_text(row.audit_id),
        or_fallback(&row.user_name, "Unknown"),
        opt_uuid(row.user_id),
        row.action.clone(),
        opt_uuid(row.allocation_id),
        or_fallback(&row.resource_name, "—"),
        opt_uuid(row.resource_id),
        or_fallback(&row.project_name, "—"),
        opt_uuid(row.project_id),
        row.before_summary.clone(),
        row.after_summary.clone(),
    ];
    assert(v@.map_values(|s: String| s@) =~= assignment_history_cells_spec(*row));
    v
}

/// The texts of a budget-modification row: time and audit id, user
/// (`Unknown` when unnamed) and user id, action, project (`—` when unnamed)
/// and project id, before and after summaries.
pub open spec fn budget_modification_cells_spec(row: BudgetModificationRow) -> Seq<Seq<char>> {
    seq![
        timestamp_text(row.timestamp@),
        uuid_hyphenated(row.audit_id),
        text_or(row.user_name, "Unknown"@),
        opt_uuid_text(row.user_id),
        row.action@,
        text_or(row.project_name, "—"@),
        opt_uuid_text(row.project_id),
        row.before_summary@,
        row.after_summary@,
    ]
}

/// The cell texts of a budget-modification row.
pub fn budget_modification_cells(row: &BudgetModificationRow) -> (r: Vec<String>)
    ensures
        r@.map_values(|s: String| s@) == budget_modification_cells_spec(*row),
{
    let v: Vec<String> = vec![
        format_timestamp(row.timestamp.as_str()),
        uuid_text(row.audit_id),
        or_fallback(&row.user_name, "Unknown"),
        opt_uuid(row.user_id),
        row.action.clone(),
        or_fallback(&row.project_name, "—"),
        opt_uuid(row.project_id),
        row.before_summary.clone(),
        row.after_summary.clone(),
    ];
    assert(v@.map_values(|s: String| s@) =~= budget_modification_cells_spec(*row));
    v
}

/// Status class of an access-log row.
pub open spec fn access_status_class(success: bool) -> Seq<char> {
    if success { "text-positive-default"@ } else { "text-negative-default"@ }
}

/// Status word of an access-log row.
pub open spec fn access_status_text(success: bool) -> Seq<char> {
    if success { "Success"@ } else { "Failure"@ }
}

/// The texts of an access-log row: time and audit id, user (`Unknown` when
/// unnamed) and user id, action, resource type and resource id, the status
/// class and word, and the reason (empty when there is none).
pub open spec fn access_log_cells_spec(row: AccessLogRow) -> Seq<Seq<char>> {
    seq![
        timestamp_text(row.timestamp@),
        uuid_hyphenated(row.audit_id),
        text_or(row.user_name, "Unknown"@),
        opt_uuid_text(row.user_id),
        row.action@,
        row.resource_type@,
        opt_uuid_text(row.resource_id),
        access_status_class(row.success),
        access_status_text(row.success),
        text_or(row.reason, Seq::empty()),
    ]
}

/// The cell texts of an access-log row.
pub fn access_log_cells(row: &AccessLogRow) -> (r: Vec<String>)
    ensures
        r@.map_values(|s: String| s@) == access_log_cells_spec(*row),
{
    let (status_class, status_text) = if row.success {
        ("text-positive-default", "Success")
    } else {
        ("text-negative-default", "Failure")
    };
    let v: Vec<String> = vec![
        format_timestamp(row.timestamp.as_str()),
        uuid_text(row.audit_id),
        or_fallback(&row.user_name, "Unknown"),
        opt_uuid(row.user_id),
        row.action.clone(),
        row.resource_type.clone(),
        opt_uuid(row.resource_id),
        owned(status_class),
        owned(status_text),
        or_fallback(&row.reason, ""),
    ];
    proof {
        reveal_strlit("");
        let m = v@.map_values(|s: String| s@);
        let e = access_log_cells_spec(*row);
        assert(m[7] == e[7]);
        assert(m[8] == e[8]);
        assert(m[9] == e[9]);
    }
    assert(v@.map_values(|s: String| s@) =~= access_log_cells_spec(*row));
    v
}


/// The cell texts of row `i` of a report page.
pub open spec fn report_row_cells_spec(rows: ReportRows, i: int) -> Seq<Seq<char>> {
    match rows {
        ReportRows::CtcChangeLog(r) => ctc_change_log_cells_spec(r@[i]),
        ReportRows::AssignmentHistory(r) => assignment_history_cells_spec(r@[i]),
        ReportRows::BudgetModifications(r) => budget_modification_cells_spec(r@[i]),
        ReportRows::AccessLogs(r) => access_log_cells_spec(r@[i]),
    }
}

/// The cell texts of every row of a report page, in order, laid out for the
/// page's report type.
pub fn report_table_cells(rows: &ReportRows) -> (r: Vec<Vec<String>>)
    ensures
        r@.len() == rows.spec_len(),
        forall|i: int| 0 <= i < r@.len() ==> (#[trigger] r@[i])@.map_values(|s: String| s@) == report_row_cells_spec(*rows, i),
{
    let mut out: Vec<Vec<String>> = Vec::new();
    let n = rows.len();
    let mut i: usize = 0;
    while i < n
        invariant
            i <= n == rows.spec_len(),
            out@.len() == i,
            forall|k: int| 0 <= k < i ==> (#[trigger] out@[k])@.map_values(|s: String| s@) == report_row_cells_spec(*rows, k),
        decreases n - i,
    {
        let cells = match rows {
            ReportRows::CtcChangeLog(r) => ctc_change_log_cells(&r[i]),
            ReportRows::AssignmentHistory(r) => assignment_history_cells(&r[i]),
            ReportRows::BudgetModifications(r) => budget_modification_cells(&r[i]),
            ReportRows::AccessLogs(r) => access_log_cells(&r[i]),
        };
        out.push(cells);
        i = i + 1;
    }
    out
}

} // verus!
