use vstd::prelude::*;
use crate::text::{str_eq, owned, cat, cat3, chars_of, string_from_chars, append_str, trim_str, trim_spec};
use crate::numbers::{i64_text, int_text};
use crate::dates::{parse_iso_date, iso_date_parse};
use crate::ids::{parse_uuid, uuid_parse_spec};
use crate::json::Json;

verus! {

/// Rows per page of an audit report.
pub const PAGE_LIMIT: i64 = 100;

/// Widest date range, in days, that the interactive preview shows.
pub const MAX_INTERACTIVE_RANGE_DAYS: i64 = 90;

/// The compliance audit reports.
#[derive(Debug, Clone, Copy, PartialEq, Eq, Structural)]
pub enum ReportType {
    CtcChangeLog,
    AssignmentHistory,
    BudgetModifications,
    AccessLogs,
}

/// Wire token of a report type.
pub open spec fn report_token(t: ReportType) -> Seq<char> {
    match t {
        ReportType::CtcChangeLog => "ctc_change_log"@,
        ReportType::AssignmentHistory => "assignment_history"@,
        ReportType::BudgetModifications => "budget_modifications"@,
        ReportType::AccessLogs => "access_logs"@,
    }
}

/// Human label of a report type.
pub open spec fn report_label(t: ReportType) -> Seq<char> {
    match t {
        ReportType::CtcChangeLog => "CTC Change Log"@,
        ReportType::AssignmentHistory => "Assignment History"@,
        ReportType::BudgetModifications => "Budget Modifications"@,
        ReportType::AccessLogs => "Access Logs"@,
    }
}

/// The report type a wire token names, if any.
pub open spec fn report_from_token(v: Seq<char>) -> Option<ReportType> {
    if v == "ctc_change_log"@ {
        Some(ReportType::CtcChangeLog)
    } else if v == "assignment_history"@ {
        Some(ReportType::AssignmentHistory)
    } else if v == "budget_modifications"@ {
        Some(ReportType::BudgetModifications)
    } else if v == "access_logs"@ {
        Some(ReportType::AccessLogs)
    } else {
        None
    }
}

impl ReportType {
    /// Wire token.
    pub fn as_str(&self) -> (r: &'static str)
        ensures
            r@ == report_token(*self),
    {
        match self {
            ReportType::CtcChangeLog => "ctc_change_log",
            ReportType::AssignmentHistory => "assignment_history",
            ReportType::BudgetModifications => "budget_modifications",
            ReportType::AccessLogs => "access_logs",
        }
    }

    /// Human label.
    pub fn label(&self) -> (r: &'static str)
        ensures
            r@ == report_label(*self),
    {
        match self {
            ReportType::CtcChangeLog => "CTC Change Log",
            ReportType::AssignmentHistory => "Assignment History",
            ReportType::BudgetModifications => "Budget Modifications",
            ReportType::AccessLogs => "Access Logs",
        }
    }

    /// The report type of a wire token.
    pub fn from_str(value: &str) -> (r: Option<ReportType>)
        ensures
            r == report_from_token(value@),
    {
        if str_eq(value, "ctc_change_log") {
            Some(ReportType::CtcChangeLog)
        } else if str_eq(value, "assignment_history") {
            Some(ReportType::AssignmentHistory)
        } else if str_eq(value, "budget_modifications") {
            Some(ReportType::BudgetModifications)
        } else if str_eq(value, "access_logs") {
            Some(ReportType::AccessLogs)
        } else {
            None
        }
    }

    /// Label of a wire token, `Unknown Report` for unknown tokens.
    pub fn label_for(value: &str) -> (r: &'static str)
        ensures
            r@ == (match report_from_token(value@) {
                Some(t) => report_label(t),
                None => "Unknown Report"@,
            }),
    {
        match ReportType::from_str(value) {
            Some(t) => t.label(),
            None => "Unknown Report",
        }
    }

    /// Only access logs are filtered by user and action.
    pub fn supports_user_action_filters(&self) -> (r: bool)
        ensures
            r == (*self == ReportType::AccessLogs),
    {
        match self {
            ReportType::AccessLogs => true,
            _ => false,
        }
    }
}

/// One row of the CTC change log (UUIDs as their 128-bit values).
pub struct CtcChangeLogRow {
    pub revision_id: u128,
    pub revision_number: i32,
    pub change_date: String,
    pub employee_id: u128,
    pub employee_name: String,
    pub changed_by_id: u128,
    pub changed_by_name: Option<String>,
    pub field: String,
    pub old_value: Json,
    pub new_value: Json,
    pub reason: String,
}

/// One row of the assignment history.
pub struct AssignmentHistoryRow {
    pub audit_id: u128,
    pub timestamp: String,
    pub user_id: Option<u128>,
    pub user_name: Option<String>,
    pub action: String,
    pub allocation_id: Option<u128>,
    pub resource_id: Option<u128>,
    pub resource_name: Option<String>,
    pub project_id: Option<u128>,
    pub project_name: Option<String>,
    pub before_summary: String,
    pub after_summary: String,
}

/// One row of the budget modification log.
pub struct BudgetModificationRow {
    pub audit_id: u128,
    pub timestamp: String,
    pub user_id: Option<u128>,
    pub user_name: Option<String>,
    pub action: String,
    pub project_id: Option<u128>,
    pub project_name: Option<String>,
    pub before_summary: String,
    pub after_summary: String,
}

/// One row of the access log.
pub struct AccessLogRow {
    pub audit_id: u128,
    pub timestamp: String,
    pub user_id: Option<u128>,
    pub user_name: Option<String>,
    pub action: String,
    pub resource_type: String,
    pub resource_id: Option<u128>,
    pub success: bool,
    pub reason: Option<String>,
}

/// The rows of one report page.
pub enum ReportRows {
    CtcChangeLog(Vec<CtcChangeLogRow>),
    AssignmentHistory(Vec<AssignmentHistoryRow>),
    BudgetModifications(Vec<BudgetModificationRow>),
    AccessLogs(Vec<AccessLogRow>),
}

impl ReportRows {
    /// Number of rows, whatever the report.
    pub open spec fn spec_len(&self) -> nat {
        match self {
            ReportRows::CtcChangeLog(r) => r@.len(),
            ReportRows::AssignmentHistory(r) => r@.len(),
            ReportRows::BudgetModifications(r) => r@.len(),
            ReportRows::AccessLogs(r) => r@.len(),
        }
    }

    /// Number of rows.
    pub fn len(&self) -> (r: usize)
        ensures
            r == self.spec_len(),
    {
        match self {
            ReportRows::CtcChangeLog(r) => r.len(),
            ReportRows::AssignmentHistory(r) => r.len(),
            ReportRows::BudgetModifications(r) => r.len(),
            ReportRows::AccessLogs(r) => r.len(),
        }
    }
}

/// The filter form of the audit report page.
pub struct ReportFilters {
    pub report_type: String,
    pub start_date: String,
    pub end_date: String,
    pub user_id: String,
    pub action_type: String,
}

/// The error body shape the API answers with.
pub struct ApiErrorEnvelope {
    pub error: Option<ApiErrorBody>,
    pub message: Option<String>,
}

/// The nested error object of an error body.
pub struct ApiErrorBody {
    pub message: Option<String>,
}

/// The message an error body carries: the nested `error.message`, else the
/// top-level `message`; trimmed, and only when not blank.
pub open spec fn envelope_message(env: Option<ApiErrorEnvelope>) -> Option<Seq<char>> {
    let raw: Option<Seq<char>> = match env {
        Some(e) => match e.error {
            Some(b) => match b.message {
                Some(m) => Some(m@),
                None => match e.message {
                    Some(m) => Some(m@),
                    None => None,
                },
            },
            None => match e.message {
                Some(m) => Some(m@),
                None => None,
            },
        },
        None => None,
    };
    match raw {
        Some(m) => if trim_spec(m).len() > 0 { Some(trim_spec(m)) } else { None },
        None => None,
    }
}

/// The trimmed, non-blank message of an error body.
pub fn envelope_message_text(env: &Option<ApiErrorEnvelope>) -> (r: Option<String>)
    ensures
        match r {
            Some(s) => envelope_message(*env) == Some(s@),
            None => envelope_message(*env) is None,
        },
{
    let raw: Option<&String> = match env {
        Some(e) => match &e.error {
            Some(b) => match &b.message {
                Some(m) => Some(m),
                None => match &e.message {
                    Some(m) => Some(m),
                    None => None,
                },
            },
            None => match &e.message {
                Some(m) => Some(m),
                None => None,
            },
        },
        None => None,
    };
    match raw {
        Some(m) => {
            let t = trim_str(m.as_str());
            if t.as_str().unicode_len() > 0 { Some(t) } else { None }
        },
        None => None,
    }
}

/// Error text for a failed audit report request.
pub open spec fn audit_error_text(status: int, env: Option<ApiErrorEnvelope>) -> Seq<char> {
    "Audit report request failed ("@ + int_text(status) + "): "@ + match envelope_message(env) {
        Some(m) => m,
        None => "The audit report could not be loaded. Check the selected filters and try again."@,
    }
}

/// Error text for a failed audit report request, given the HTTP status and
/// the error body as parsed.
pub fn audit_error_message(status: u16, envelope: &Option<ApiErrorEnvelope>) -> (r: String)
    ensures
        r@ == audit_error_text(status as int, *envelope),
{
    let message = match envelope_message_text(envelope) {
        Some(m) => m,
        None => owned("The audit report could not be loaded. Check the selected filters and try again."),
    };
    let code = i64_text(status as i64);
    let head = cat3("Audit report request failed (", code.as_str(), "): ");
    cat(head.as_str(), message.as_str())
}

/// The filter dates as days, or the error the form shows.
pub open spec fn filter_dates_spec(start: Seq<char>, end: Seq<char>) -> Result<(int, int), Seq<char>> {
    if start.len() == 0 || end.len() == 0 {
        Err("Start date and end date are required"@)
    } else {
        match iso_date_parse(start) {
            None => Err("Start date must use YYYY-MM-DD"@),
            Some(s) => match iso_date_parse(end) {
                None => Err("End date must use YYYY-MM-DD"@),
                Some(e) => if s > e {
                    Err("End date must be greater than or equal to start date"@)
                } else {
                    Ok((s, e))
                },
            },
        }
    }
}

/// Reads the start and end date of the filters (as day numbers).
pub fn parsed_filter_dates(filters: &ReportFilters) -> (r: Result<(i32, i32), String>)
    ensures
        match (r, filter_dates_spec(filters.start_date@, filters.end_date@)) {
            (Ok((s, e)), Ok((s2, e2))) => s == s2 && e == e2,
            (Err(m), Err(m2)) => m@ == m2,
            _ => false,
        },
        r matches Ok((s, e)) ==> crate::dates::day_in_range(s as int) && crate::dates::day_in_range(e as int),
{
    if filters.start_date.as_str().unicode_len() == 0 || filters.end_date.as_str().unicode_len() == 0 {
        return Err(owned("Start date and end date are required"));
    }
    let start = match parse_iso_date(filters.start_date.as_str()) {
        Some(s) => s,
        None => return Err(owned("Start date must use YYYY-MM-DD")),
    };
    let end = match parse_iso_date(filters.end_date.as_str()) {
        Some(e) => e,
        None => return Err(owned("End date must use YYYY-MM-DD")),
    };
    if start > end {
        return Err(owned("End date must be greater than or equal to start date"));
    }
    Ok((start, end))
}

/// The date range is valid and spans at most the interactive limit, both
/// ends counted.
pub open spec fn interactive_range_spec(start: Seq<char>, end: Seq<char>) -> bool {
    match filter_dates_spec(start, end) {
        Ok((s, e)) => e - s + 1 <= 90,
        Err(_) => false,
    }
}

/// Does the date range fit the interactive preview?
pub fn is_interactive_range(filters: &ReportFilters) -> (r: bool)
    ensures
        r == interactive_range_spec(filters.start_date@, filters.end_date@),
{
    match parsed_filter_dates(filters) {
        Ok((s, e)) => (e as i64) - (s as i64) + 1 <= MAX_INTERACTIVE_RANGE_DAYS,
        Err(_) => false,
    }
}

/// The check of the filter form: a known report type, valid dates, the
/// interactive day cap when asked for, and a UUID (or nothing) as user id.
pub open spec fn validate_filters_spec(f: ReportFilters, enforce_interactive_cap: bool) -> Result<(), Seq<char>> {
    if report_from_token(f.report_type@) is None {
        Err("Report type is not supported"@)
    } else {
        match filter_dates_spec(f.start_date@, f.end_date@) {
            Err(m) => Err(m),
            Ok((s, e)) => if enforce_interactive_cap && e - s + 1 > 90 {
                Err("Audit report preview is limited to 90 days. Narrow the date range or request an export for the wider window."@)
            } else if f.user_id@.len() > 0 && uuid_parse_spec(f.user_id@) is None {
                Err("User ID must be a valid UUID"@)
            } else {
                Ok(())
            },
        }
    }
}

/// Checks the filter form before loading or exporting a report.
pub fn validate_filters(filters: &ReportFilters, enforce_interactive_cap: bool) -> (r: Result<(), String>)
    ensures
        match (r, validate_filters_spec(*filters, enforce_interactive_cap)) {
            (Ok(()), Ok(())) => true,
            (Err(m), Err(m2)) => m@ == m2,
            _ => false,
        },
{
    if ReportType::from_str(filters.report_type.as_str()).is_none() {
        return Err(owned("Report type is not supported"));
    }
    let (start, end) = match parsed_filter_dates(filters) {
        Ok(p) => p,
        Err(m) => return Err(m),
    };
    let inclusive_days: i64 = (end as i64) - (start as i64) + 1;
    if enforce_interactive_cap && inclusive_days > MAX_INTERACTIVE_RANGE_DAYS {
        return Err(owned("Audit report preview is limited to 90 days. Narrow the date range or request an export for the wider window."));
    }
    if filters.user_id.as_str().unicode_len() > 0 && parse_uuid(filters.user_id.as_str()).is_none() {
        return Err(owned("User ID must be a valid UUID"));
    }
    Ok(())
}

/// The body of an export request.
pub struct ExportRequestPayload {
    pub report_type: String,
    pub start_date: String,
    pub end_date: String,
    pub snapshot_at: Option<String>,
    pub user_id: Option<u128>,
    pub action_type: Option<String>,
}

/// Builds the export request for the current filters: the user id only when
/// given and a UUID, the action type only when given.
pub fn export_request_payload(filters: &ReportFilters, snapshot_at: Option<String>) -> (r: ExportRequestPayload)
    ensures
        r.report_type@ == filters.report_type@,
        r.start_date@ == filters.start_date@,
        r.end_date@ == filters.end_date@,
        r.snapshot_at == snapshot_at,
        r.user_id == (if filters.user_id@.len() == 0 { None } else { uuid_parse_spec(filters.user_id@) }),
        match r.action_type {
            Some(a) => filters.action_type@.len() > 0 && a@ == filters.action_type@,
            None => filters.action_type@.len() == 0,
        },
{
    let user_id = if filters.user_id.as_str().unicode_len() == 0 {
        None
    } else {
        parse_uuid(filters.user_id.as_str())
    };
    let action_type = if filters.action_type.as_str().unicode_len() == 0 {
        None
    } else {
        Some(filters.action_type.clone())
    };
    ExportRequestPayload {
        report_type: filters.report_type.clone(),
        start_date: filters.start_date.clone(),
        end_date: filters.end_date.clone(),
        snapshot_at,
        user_id,
        action_type,
    }
}

/// Query path of a report page. `encoded_action_type` and
/// `encoded_snapshot_at` are the URI-encoded action filter and snapshot.
pub open spec fn audit_report_url_spec(
    f: ReportFilters,
    offset: int,
    encoded_action_type: Seq<char>,
    encoded_snapshot_at: Option<Seq<char>>,
) -> Seq<char> {
    "/api/v1/audit-logs/reports?report_type="@ + f.report_type@ + "&start_date="@ + f.start_date@
        + "&end_date="@ + f.end_date@ + "&limit=100&offset="@ + int_text(offset)
        + (if f.user_id@.len() > 0 { "&user_id="@ + f.user_id@ } else { Seq::empty() })
        + (if f.action_type@.len() > 0 { "&action_type="@ + encoded_action_type } else { Seq::empty() })
        + match encoded_snapshot_at {
            Some(s) => "&snapshot_at="@ + s,
            None => Seq::empty(),
        }
}

/// Query path of a report page.
pub fn audit_report_url(
    filters: &ReportFilters,
    offset: i64,
    encoded_action_type: &str,
    encoded_snapshot_at: Option<&str>,
) -> (r: String)
    ensures
        r@ == audit_report_url_spec(
            *filters,
            offset as int,
            encoded_action_type@,
            match encoded_snapshot_at {
                Some(s) => Some(s@),
                None => None,
            },
        ),
{
    let mut v = chars_of("/api/v1/audit-logs/reports?report_type=");
    append_str(&mut v, filters.report_type.as_str());
    append_str(&mut v, "&start_date=");
    append_str(&mut v, filters.start_date.as_str());
    append_str(&mut v, "&end_date=");
    append_str(&mut v, filters.end_date.as_str());
    append_str(&mut v, "&limit=100&offset=");
    let off = i64_text(offset);
    append_str(&mut v, off.as_str());
    let ghost base = v@;
    if filters.user_id.as_str().unicode_len() > 0 {
        append_str(&mut v, "&user_id=");
        append_str(&mut v, filters.user_id.as_str());
    }
    let ghost with_user = v@;
    if filters.action_type.as_str().unicode_len() > 0 {
        append_str(&mut v, "&action_type=");
        append_str(&mut v, encoded_action_type);
    }
    let ghost with_action = v@;
    match encoded_snapshot_at {
        Some(s) => {
            append_str(&mut v, "&snapshot_at=");
            append_str(&mut v, s);
        },
        None => {},
    }
    proof {
        let user_part: Seq<char> = if filters.user_id@.len() > 0 { "&user_id="@ + filters.user_id@ } else { Seq::empty() };
        let action_part: Seq<char> = if filters.action_type@.len() > 0 { "&action_type="@ + encoded_action_type@ } else { Seq::empty() };
        assert(with_user =~= base + user_part);
        assert(with_action =~= base + user_part + action_part);
    }
    string_from_chars(&v)
}

} // verus!
