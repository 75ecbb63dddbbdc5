use vstd::prelude::*;
use crate::text::{owned, cat, cat3, chars_of, string_from_chars, append_str, str_eq};
use crate::ids::{parse_uuid, uuid_parse_spec, uuid_text, uuid_hyphenated};
use crate::value_map::seq_has_view;

verus! {

/// A text that must be a UUID; `error` when it is not.
pub fn required_uuid(text: &str, error: &str) -> (r: Result<u128, String>)
    ensures
        match r {
            Ok(u) => uuid_parse_spec(text@) == Some(u),
            Err(m) => uuid_parse_spec(text@) is None && m@ == error@,
        },
{
    match parse_uuid(text) {
        Some(u) => Ok(u),
        None => Err(owned(error)),
    }
}

/// A text that is empty or a UUID; `error` when it is neither.
pub fn optional_uuid(text: &str, error: &str) -> (r: Result<Option<u128>, String>)
    ensures
        match r {
            Ok(None) => text@.len() == 0,
            Ok(Some(u)) => text@.len() > 0 && uuid_parse_spec(text@) == Some(u),
            Err(m) => text@.len() > 0 && uuid_parse_spec(text@) is None && m@ == error@,
        },
{
    if text.unicode_len() == 0 {
        return Ok(None);
    }
    match parse_uuid(text) {
        Some(u) => Ok(Some(u)),
        None => Err(owned(error)),
    }
}

/// Path of one record under a collection: `base/<uuid>`.
pub fn record_path(base: &str, id: u128) -> (r: String)
    ensures
        r@ == base@ + "/"@ + uuid_hyphenated(id),
{
    let t = uuid_text(id);
    cat3(base, "/", t.as_str())
}

/// `<action>: <detail>`, the shape of every request error the pages show.
pub fn failure_message(action: &str, detail: &str) -> (r: String)
    ensures
        r@ == action@ + ": "@ + detail@,
{
    cat3(action, ": ", detail)
}

/// Error of a dashboard request: an expired session is passed on as is,
/// anything else is prefixed.
pub fn dashboard_fetch_error(e: &str) -> (r: String)
    ensures
        r@ == (if e@ == "SESSION_EXPIRED"@ { e@ } else { "Failed to fetch dashboard: "@ + e@ }),
{
    if str_eq(e, "SESSION_EXPIRED") {
        owned(e)
    } else {
        cat("Failed to fetch dashboard: ", e)
    }
}

/// Path of the role dashboard, with the team trend window when one is given.
pub fn role_dashboard_url(range: &Option<(String, String)>) -> (r: String)
    ensures
        r@ == match *range {
            Some((s, e)) => "/api/v1/dashboard?team_start_date="@ + s@ + "&team_end_date="@ + e@,
            None => "/api/v1/dashboard"@,
        },
{
    match range {
        Some((s, e)) => {
            let mut v = chars_of("/api/v1/dashboard?team_start_date=");
            append_str(&mut v, s.as_str());
            append_str(&mut v, "&team_end_date=");
            append_str(&mut v, e.as_str());
            string_from_chars(&v)
        },
        None => owned("/api/v1/dashboard"),
    }
}

/// `base` filtered by a department when one is chosen.
pub open spec fn department_filtered(base: Seq<char>, department_id: Option<Seq<char>>) -> Seq<char> {
    match department_id {
        Some(id) => if id.len() > 0 { base + "?department_id="@ + id } else { base },
        None => base,
    }
}

/// Path of the completeness report, for one department or all.
pub fn completeness_url(department_id: Option<&str>) -> (r: String)
    ensures
        r@ == department_filtered("/api/v1/ctc/completeness"@, match department_id {
            Some(d) => Some(d@),
            None => None,
        }),
{
    match department_id {
        Some(id) => if id.unicode_len() > 0 {
            cat3("/api/v1/ctc/completeness", "?department_id=", id)
        } else {
            owned("/api/v1/ctc/completeness")
        },
        None => owned("/api/v1/ctc/completeness"),
    }
}

/// Path of the list of employees missing a CTC record.
pub fn missing_employees_url(department_id: Option<&str>) -> (r: String)
    ensures
        r@ == department_filtered("/api/v1/ctc/completeness/missing"@, match department_id {
            Some(d) => Some(d@),
            None => None,
        }),
{
    match department_id {
        Some(id) => if id.unicode_len() > 0 {
            cat3("/api/v1/ctc/completeness/missing", "?department_id=", id)
        } else {
            owned("/api/v1/ctc/completeness/missing")
        },
        None => owned("/api/v1/ctc/completeness/missing"),
    }
}

/// Path of the compliance report for a window.
pub fn compliance_report_url(start_date: &str, end_date: &str) -> (r: String)
    ensures
        r@ == "/api/v1/ctc/compliance-report?start_date="@ + start_date@ + "&end_date="@ + end_date@,
{
    let mut v = chars_of("/api/v1/ctc/compliance-report?start_date=");
    append_str(&mut v, start_date);
    append_str(&mut v, "&end_date=");
    append_str(&mut v, end_date);
    string_from_chars(&v)
}

/// Path of the cash-flow entries, for one project or all.
pub fn cash_flow_entries_url(project_id: Option<&str>) -> (r: String)
    ensures
        r@ == match project_id {
            Some(p) => if p@.len() > 0 { "/api/v1/cash-flow/entries?project_id="@ + p@ } else { "/api/v1/cash-flow/entries"@ },
            None => "/api/v1/cash-flow/entries"@,
        },
{
    match project_id {
        Some(p) => if p.unicode_len() > 0 {
            cat("/api/v1/cash-flow/entries?project_id=", p)
        } else {
            owned("/api/v1/cash-flow/entries")
        },
        None => owned("/api/v1/cash-flow/entries"),
    }
}

/// Path of the cash-flow dashboard for a window, for one project or all.
pub fn cash_flow_dashboard_url(start_date: &str, end_date: &str, project_id: Option<&str>) -> (r: String)
    ensures
        r@ == "/api/v1/cash-flow/dashboard?start_date="@ + start_date@ + "&end_date="@ + end_date@
            + match project_id {
                Some(p) => if p@.len() > 0 { "&project_id="@ + p@ } else { Seq::empty() },
                None => Seq::empty(),
            },
{
    let mut v = chars_of("/api/v1/cash-flow/dashboard?start_date=");
    append_str(&mut v, start_date);
    append_str(&mut v, "&end_date=");
    append_str(&mut v, end_date);
    match project_id {
        Some(p) => if p.unicode_len() > 0 {
            append_str(&mut v, "&project_id=");
            append_str(&mut v, p);
        },
        None => {},
    }
    string_from_chars(&v)
}

/// Is `key` among the changed keys?
pub fn is_changed(changed: &Vec<String>, key: &str) -> (r: bool)
    ensures
        r == seq_has_view(changed@, key@),
{
    let mut i: usize = 0;
    while i < changed.len()
        invariant
            i <= changed@.len(),
            forall|k: int| 0 <= k < i ==> changed@[k]@ != key@,
        decreases changed.len() - i,
    {
        if str_eq(changed[i].as_str(), key) {
            return true;
        }
        i = i + 1;
    }
    false
}

/// Is any of `keys` among the changed keys?
pub fn any_changed(changed: &Vec<String>, keys: &Vec<String>) -> (r: bool)
    ensures
        r == exists|j: int| 0 <= j < keys@.len() && seq_has_view(changed@, #[trigger] keys@[j]@),
{
    let mut j: usize = 0;
    while j < keys.len()
        invariant
            j <= keys@.len(),
            forall|k: int| 0 <= k < j ==> !seq_has_view(changed@, #[trigger] keys@[k]@),
        decreases keys.len() - j,
    {
        if is_changed(changed, keys[j].as_str()) {
            return true;
        }
        j = j + 1;
    }
    false
}

/// The status a project card shows when the backend sends none.
pub fn default_health_status() -> (r: String)
    ensures
        r@ == "unconfigured"@,
{
    owned("unconfigured")
}


/// A department with its optional head.
pub struct Department {
    pub id: u128,
    pub name: String,
    pub head_id: Option<u128>,
    pub head_name: Option<String>,
}

/// What a department form sends: the name and the head, if one was picked.
pub struct DepartmentPayload {
    pub name: String,
    pub head_id: Option<u128>,
}

/// Builds the body of a department create or update: no head when the head
/// field is empty, the parsed head id when it is a UUID, and
/// `Invalid head ID` otherwise.
pub fn department_payload(name: &str, head_id: &str) -> (r: Result<DepartmentPayload, String>)
    ensures
        match r {
            Ok(p) => p.name@ == name@ && (if head_id@.len() == 0 {
                p.head_id is None
            } else {
                uuid_parse_spec(head_id@) == Some(p.head_id->Some_0) && p.head_id is Some
            }),
            Err(m) => head_id@.len() > 0 && uuid_parse_spec(head_id@) is None && m@ == "Invalid head ID"@,
        },
{
    match optional_uuid(head_id, "Invalid head ID") {
        Ok(h) => Ok(DepartmentPayload { name: owned(name), head_id: h }),
        Err(m) => Err(m),
    }
}

} // verus!
