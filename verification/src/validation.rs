use vstd::prelude::*;
use crate::text::{owned, cat, cat3, chars_of, string_from_chars, append_str, trim_str, trim_spec, seq_lt, chars_lt};
use crate::numbers::{i64_text, int_text};
use crate::display::{plain_text_preview, plain_text_preview_spec};
use crate::audit::{ApiErrorEnvelope, envelope_message, envelope_message_text};

verus! {

/// Rows per page of the validation report.
pub const VALIDATION_PAGE_LIMIT: i64 = 100;

/// The filter form of the CTC validation page.
pub struct ValidationFilters {
    pub start_date: String,
    pub end_date: String,
    pub sample_employee_ids: String,
}

/// Builds the filters from the form fields; the dates are trimmed, the
/// employee list is kept as typed.
pub fn report_filters(start_date: String, end_date: String, sample_employee_ids: String) -> (r: ValidationFilters)
    ensures
        r.start_date@ == trim_spec(start_date@),
        r.end_date@ == trim_spec(end_date@),
        r.sample_employee_ids == sample_employee_ids,
{
    ValidationFilters {
        start_date: trim_str(start_date.as_str()),
        end_date: trim_str(end_date.as_str()),
        sample_employee_ids,
    }
}

/// Both dates are required and the end may not sort before the start (the
/// dates are compared as text).
pub open spec fn validate_report_filters_spec(f: ValidationFilters) -> Result<(), Seq<char>> {
    if f.start_date@.len() == 0 || f.end_date@.len() == 0 {
        Err("Start date and end date are required"@)
    } else if seq_lt(f.end_date@, f.start_date@) {
        Err("End date must be greater than or equal to start date"@)
    } else {
        Ok(())
    }
}

/// Checks the validation filters.
pub fn validate_report_filters(filters: &ValidationFilters) -> (r: Result<(), String>)
    ensures
        match (r, validate_report_filters_spec(*filters)) {
            (Ok(()), Ok(())) => true,
            (Err(m), Err(m2)) => m@ == m2,
            _ => false,
        },
{
    if filters.start_date.as_str().unicode_len() == 0 || filters.end_date.as_str().unicode_len() == 0 {
        return Err(owned("Start date and end date are required"));
    }
    let s = chars_of(filters.start_date.as_str());
    let e = chars_of(filters.end_date.as_str());
    if chars_lt(&e, &s) {
        return Err(owned("End date must be greater than or equal to start date"));
    }
    Ok(())
}

/// Error text for a failed validation report request: the API's message, a
/// preview of a plain-text body, or a generic hint.
pub open spec fn validation_error_text(status: int, env: Option<ApiErrorEnvelope>, body: Seq<char>) -> Seq<char> {
    "Failed to fetch validation report ("@ + int_text(status) + "): "@ + match envelope_message(env) {
        Some(m) => m,
        None => match plain_text_preview_spec(body) {
            Some(p) => p,
            None => "The validation report could not be loaded. Check the selected filters and try again."@,
        },
    }
}

/// Error text for a failed validation report request, given the status, the
/// error body as parsed and the raw body.
pub fn validation_error_message(status: u16, envelope: &Option<ApiErrorEnvelope>, body: &str) -> (r: String)
    ensures
        r@ == validation_error_text(status as int, *envelope, body@),
{
    let message = match envelope_message_text(envelope) {
        Some(m) => m,
        None => match plain_text_preview(body) {
            Some(p) => p,
            None => owned("The validation report could not be loaded. Check the selected filters and try again."),
        },
    };
    let code = i64_text(status as i64);
    let head = cat3("Failed to fetch validation report (", code.as_str(), "): ");
    cat(head.as_str(), message.as_str())
}

/// Query path of a validation report page, with the normalized employee
/// sample (already URI-encoded) when there is one.
pub open spec fn validation_url_spec(start: Seq<char>, end: Seq<char>, limit: int, offset: int, encoded_ids: Option<Seq<char>>) -> Seq<char> {
    "/api/v1/ctc/validation-report?start_date="@ + start + "&end_date="@ + end + "&limit="@ + int_text(limit)
        + "&offset="@ + int_text(offset) + match encoded_ids {
            Some(ids) => "&employee_ids="@ + ids,
            None => Seq::empty(),
        }
}

/// Query path of a validation report page.
pub fn validation_report_url(start_date: &str, end_date: &str, limit: i64, offset: i64, encoded_ids: Option<&str>) -> (r: String)
    ensures
        r@ == validation_url_spec(start_date@, end_date@, limit as int, offset as int, match encoded_ids {
            Some(s) => Some(s@),
            None => None,
        }),
{
    let mut v = chars_of("/api/v1/ctc/validation-report?start_date=");
    append_str(&mut v, start_date);
    append_str(&mut v, "&end_date=");
    append_str(&mut v, end_date);
    append_str(&mut v, "&limit=");
    let l = i64_text(limit);
    append_str(&mut v, l.as_str());
    append_str(&mut v, "&offset=");
    let o = i64_text(offset);
    append_str(&mut v, o.as_str());
    match encoded_ids {
        Some(ids) => {
            append_str(&mut v, "&employee_ids=");
            append_str(&mut v, ids);
        },
        None => {},
    }
    string_from_chars(&v)
}

} // verus!
