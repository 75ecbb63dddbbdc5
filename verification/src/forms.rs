use vstd::prelude::*;
use crate::text::{owned, cat, chars_of, chars_contain, string_from_chars, str_eq, trim_str, trim_spec, split_chars, split_spec, join_spec, join_strings};
use crate::numbers::{parse_i64_str, parse_i64_spec};
use crate::ids::{parse_uuid, uuid_parse_spec};
use crate::labels::{category_options, category_options_spec};

verus! {

/// The error of a whole-number IDR field, or its value: no `.` allowed, a
/// decimal integer, not negative.
pub open spec fn whole_number_spec(label: Seq<char>, input: Seq<char>) -> Result<int, Seq<char>> {
    if input.contains('.') {
        Err(label + " must be a whole number (IDR)"@)
    } else {
        match parse_i64_spec(input) {
            None => Err(label + " must be a valid number"@),
            Some(v) => if v < 0 { Err(label + " must be non-negative"@) } else { Ok(v) },
        }
    }
}

/// Reads a whole-number IDR amount from a form field.
pub fn parse_whole_number(label: &str, input: &str) -> (r: Result<i64, String>)
    ensures
        match (r, whole_number_spec(label@, input@)) {
            (Ok(v), Ok(w)) => v == w,
            (Err(m), Err(m2)) => m@ == m2,
            _ => false,
        },
{
    let cs = chars_of(input);
    if chars_contain(&cs, '.') {
        return Err(cat(label, " must be a whole number (IDR)"));
    }
    let parsed = match parse_i64_str(input) {
        Some(v) => v,
        None => return Err(cat(label, " must be a valid number")),
    };
    if parsed < 0 {
        return Err(cat(label, " must be non-negative"));
    }
    Ok(parsed)
}

/// What std's `str::parse::<i32>` yields: the `i64` reading when it fits.
pub open spec fn parse_i32_spec(s: Seq<char>) -> Option<int> {
    match parse_i64_spec(s) {
        Some(v) => if i32::MIN <= v <= i32::MAX { Some(v) } else { None },
        None => None,
    }
}

/// Parses a decimal `i32` (std `str::parse::<i32>`).
pub fn parse_i32_str(s: &str) -> (r: Option<i32>)
    ensures
        r == (match parse_i32_spec(s@) {
            Some(v) => Some(v as i32),
            None => None::<i32>,
        }),
{
    match parse_i64_str(s) {
        Some(v) => if v >= i32::MIN as i64 && v <= i32::MAX as i64 { Some(v as i32) } else { None },
        None => None,
    }
}

/// The raw fields of the CTC form.
pub struct CtcFormInput {
    pub resource_id: String,
    pub base_salary: String,
    pub hra_allowance: String,
    pub medical_allowance: String,
    pub transport_allowance: String,
    pub meal_allowance: String,
    pub risk_tier: String,
    pub working_days: String,
}

/// The values the CTC form sends for a preview or a new record.
pub struct CtcPayload {
    pub resource_id: String,
    pub base_salary: i64,
    pub hra_allowance: i64,
    pub medical_allowance: i64,
    pub transport_allowance: i64,
    pub meal_allowance: i64,
    pub working_days_per_month: i32,
    pub risk_tier: i32,
}

/// The checks of the CTC form, in order: an employee is chosen; the base
/// salary is a positive whole number; each allowance is a non-negative whole
/// number. Risk tier and working days default to 1 and 22 when unreadable.
pub open spec fn ctc_form_spec(f: CtcFormInput) -> Result<CtcPayload, Seq<char>> {
    if f.resource_id@.len() == 0 {
        Err("Employee selection is required"@)
    } else {
        match whole_number_spec("Base salary"@, f.base_salary@) {
            Err(m) => Err(m),
            Ok(base) => if base <= 0 {
                Err("Base salary must be positive"@)
            } else {
                match whole_number_spec("HRA allowance"@, f.hra_allowance@) {
                    Err(m) => Err(m),
                    Ok(hra) => match whole_number_spec("Medical allowance"@, f.medical_allowance@) {
                        Err(m) => Err(m),
                        Ok(medical) => match whole_number_spec("Transport allowance"@, f.transport_allowance@) {
                            Err(m) => Err(m),
                            Ok(transport) => match whole_number_spec("Meal allowance"@, f.meal_allowance@) {
                                Err(m) => Err(m),
                                Ok(meal) => Ok(CtcPayload {
                                    resource_id: f.resource_id,
                                    base_salary: base as i64,
                                    hra_allowance: hra as i64,
                                    medical_allowance: medical as i64,
                                    transport_allowance: transport as i64,
                                    meal_allowance: meal as i64,
                                    working_days_per_month: match parse_i32_spec(f.working_days@) {
                                        Some(v) => v as i32,
                                        None => 22,
                                    },
                                    risk_tier: match parse_i32_spec(f.risk_tier@) {
                                        Some(v) => v as i32,
                                        None => 1,
                                    },
                                }),
                            },
                        },
                    },
                }
            },
        }
    }
}

/// The payload agrees with the spec's.
pub open spec fn ctc_payload_matches(p: CtcPayload, q: CtcPayload) -> bool {
    &&& p.resource_id@ == q.resource_id@
    &&& p.base_salary == q.base_salary
    &&& p.hra_allowance == q.hra_allowance
    &&& p.medical_allowance == q.medical_allowance
    &&& p.transport_allowance == q.transport_allowance
    &&& p.meal_allowance == q.meal_allowance
    &&& p.working_days_per_month == q.working_days_per_month
    &&& p.risk_tier == q.risk_tier
}

/// Checks the CTC form and builds the payload for the BPJS preview or the
/// new CTC record.
pub fn ctc_form_payload(input: &CtcFormInput) -> (r: Result<CtcPayload, String>)
    ensures
        match (r, ctc_form_spec(*input)) {
            (Ok(p), Ok(q)) => ctc_payload_matches(p, q),
            (Err(m), Err(m2)) => m@ == m2,
            _ => false,
        },
{
    if input.resource_id.as_str().unicode_len() == 0 {
        return Err(owned("Employee selection is required"));
    }
    let base = match parse_whole_number("Base salary", input.base_salary.as_str()) {
        Ok(v) => v,
        Err(e) => return Err(e),
    };
    if base <= 0 {
        return Err(owned("Base salary must be positive"));
    }
    let hra = match parse_whole_number("HRA allowance", input.hra_allowance.as_str()) {
        Ok(v) => v,
        Err(e) => return Err(e),
    };
    let medical = match parse_whole_number("Medical allowance", input.medical_allowance.as_str()) {
        Ok(v) => v,
        Err(e) => return Err(e),
    };
    let transport = match parse_whole_number("Transport allowance", input.transport_allowance.as_str()) {
        Ok(v) => v,
        Err(e) => return Err(e),
    };
    let meal = match parse_whole_number("Meal allowance", input.meal_allowance.as_str()) {
        Ok(v) => v,
        Err(e) => return Err(e),
    };
    let tier = match parse_i32_str(input.risk_tier.as_str()) { Some(v) => v, None => 1 };
    let days = match parse_i32_str(input.working_days.as_str()) { Some(v) => v, None => 22 };
    Ok(CtcPayload {
        resource_id: input.resource_id.clone(),
        base_salary: base,
        hra_allowance: hra,
        medical_allowance: medical,
        transport_allowance: transport,
        meal_allowance: meal,
        working_days_per_month: days,
        risk_tier: tier,
    })
}

/// A new cash-flow entry as sent to the API.
pub struct CashFlowEntryPayload {
    pub entry_type: String,
    pub category: String,
    pub amount_idr: i64,
    pub entry_date: String,
    pub description: String,
    pub project_id: Option<u128>,
}

/// The checks of the cash-flow form: a positive amount (the field trimmed),
/// a non-blank description, and a UUID or nothing as project.
pub open spec fn cash_flow_form_spec(
    entry_type: Seq<char>,
    category: Seq<char>,
    amount: Seq<char>,
    entry_date: Seq<char>,
    description: Seq<char>,
    project_id: Seq<char>,
) -> Result<(int, Option<u128>), Seq<char>> {
    match parse_i64_spec(trim_spec(amount)) {
        Some(v) if v > 0 => if trim_spec(description).len() == 0 {
            Err("Description is required"@)
        } else if project_id.len() == 0 {
            Ok((v, None))
        } else {
            match uuid_parse_spec(project_id) {
                Some(u) => Ok((v, Some(u))),
                None => Err("Invalid project selection"@),
            }
        },
        _ => Err("Amount must be a positive integer"@),
    }
}

/// Checks the cash-flow form and builds the new entry.
pub fn cash_flow_entry_payload(
    entry_type: String,
    category: String,
    amount: &str,
    entry_date: String,
    description: String,
    project_id: &str,
) -> (r: Result<CashFlowEntryPayload, String>)
    ensures
        match (r, cash_flow_form_spec(entry_type@, category@, amount@, entry_date@, description@, project_id@)) {
            (Ok(p), Ok((v, proj))) => p.amount_idr == v && p.project_id == proj && p.entry_type == entry_type
                && p.category == category && p.entry_date == entry_date && p.description == description,
            (Err(m), Err(m2)) => m@ == m2,
            _ => false,
        },
{
    let trimmed = trim_str(amount);
    let value = match parse_i64_str(trimmed.as_str()) {
        Some(v) => if v > 0 { v } else { return Err(owned("Amount must be a positive integer")) },
        None => return Err(owned("Amount must be a positive integer")),
    };
    let d = trim_str(description.as_str());
    if d.as_str().unicode_len() == 0 {
        return Err(owned("Description is required"));
    }
    let project = if project_id.unicode_len() == 0 {
        None
    } else {
        match parse_uuid(project_id) {
            Some(u) => Some(u),
            None => return Err(owned("Invalid project selection")),
        }
    };
    Ok(CashFlowEntryPayload { entry_type, category, amount_idr: value, entry_date, description, project_id: project })
}

/// The category kept when the entry type changes: the current one when the
/// new type offers it, else the type's first category.
pub open spec fn category_for_type_spec(entry_type: Seq<char>, current: Seq<char>) -> Seq<char> {
    let opts = category_options_spec(entry_type);
    if exists|i: int| 0 <= i < opts.len() && #[trigger] opts[i].0 == current {
        current
    } else {
        opts[0].0
    }
}

/// The category to select after the entry type changes.
pub fn category_for_type(entry_type: &str, current: &str) -> (r: String)
    ensures
        r@ == category_for_type_spec(entry_type@, current@),
{
    let options = category_options(entry_type);
    let ghost opts = category_options_spec(entry_type@);
    let mut i: usize = 0;
    while i < options.len()
        invariant
            i <= options@.len() == opts.len(),
            opts == category_options_spec(entry_type@),
            forall|k: int| 0 <= k < options@.len() ==> (#[trigger] options@[k]).0@ == opts[k].0,
            forall|k: int| 0 <= k < i ==> opts[k].0 != current@,
        decreases options.len() - i,
    {
        if str_eq(options[i].0, current) {
            return owned(current);
        }
        i = i + 1;
    }
    owned(options[0].0)
}

/// Cash flow is open to the finance and admin roles.
pub fn can_access_cash_flow(role: &str) -> (r: bool)
    ensures
        r == (role@ == "finance"@ || role@ == "admin"@),
{
    str_eq(role, "finance") || str_eq(role, "admin")
}

/// The dashboard range needs both dates (blank counts as missing).
pub fn cash_flow_range_error(start_date: &str, end_date: &str) -> (r: Option<String>)
    ensures
        match r {
            Some(m) => (trim_spec(start_date@).len() == 0 || trim_spec(end_date@).len() == 0)
                && m@ == "Start date and end date are required"@,
            None => trim_spec(start_date@).len() > 0 && trim_spec(end_date@).len() > 0,
        },
{
    let s = trim_str(start_date);
    let e = trim_str(end_date);
    if s.as_str().unicode_len() == 0 || e.as_str().unicode_len() == 0 {
        Some(owned("Start date and end date are required"))
    } else {
        None
    }
}

/// The UUID of a timeline item: its first five `-`-separated groups (split
/// allocations carry a `-<index>` suffix).
pub open spec fn timeline_base_id_spec(item_id: Seq<char>) -> Option<u128> {
    let parts = split_spec(item_id, '-');
    uuid_parse_spec(join_spec(if parts.len() > 5 { parts.take(5) } else { parts }, "-"@))
}

/// The allocation UUID of a timeline item id.
pub fn timeline_base_id(item_id: &str) -> (r: Result<u128, String>)
    ensures
        match r {
            Ok(u) => timeline_base_id_spec(item_id@) == Some(u),
            Err(m) => timeline_base_id_spec(item_id@) is None && m@ == "Invalid allocation ID"@,
        },
{
    let cs = chars_of(item_id);
    let parts = split_chars(&cs, '-');
    let n = if parts.len() > 5 { 5 } else { parts.len() };
    let ghost all = split_spec(item_id@, '-');
    let ghost kept = if all.len() > 5 { all.take(5) } else { all };
    let mut texts: Vec<String> = Vec::new();
    let mut i: usize = 0;
    while i < n
        invariant
            i <= n <= parts@.len(),
            parts@.len() == all.len(),
            all == split_spec(item_id@, '-'),
            kept == (if all.len() > 5 { all.take(5) } else { all }),
            kept.len() == n,
            forall|k: int| 0 <= k < parts@.len() ==> #[trigger] parts@[k]@ == all[k],
            texts@.len() == i,
            forall|k: int| 0 <= k < i ==> #[trigger] texts@[k]@ == kept[k],
        decreases n - i,
    {
        texts.push(string_from_chars(&parts[i]));
        i = i + 1;
    }
    assert(texts@.map_values(|p: String| p@) =~= kept);
    let joined = join_strings(&texts, "-");
    match parse_uuid(joined.as_str()) {
        Some(u) => Ok(u),
        None => Err(owned("Invalid allocation ID")),
    }
}

/// The resource and project of the allocation form, each a UUID.
pub fn allocation_form_ids(resource_id: &str, project_id: &str) -> (r: Result<(u128, u128), String>)
    ensures
        match r {
            Ok((a, b)) => uuid_parse_spec(resource_id@) == Some(a) && uuid_parse_spec(project_id@) == Some(b),
            Err(m) => match uuid_parse_spec(resource_id@) {
                None => m@ == "Invalid resource ID"@,
                Some(_) => uuid_parse_spec(project_id@) is None && m@ == "Invalid project ID"@,
            },
        },
{
    let a = match parse_uuid(resource_id) {
        Some(u) => u,
        None => return Err(owned("Invalid resource ID")),
    };
    let b = match parse_uuid(project_id) {
        Some(u) => u,
        None => return Err(owned("Invalid project ID")),
    };
    Ok((a, b))
}


/// Colour class of a cash amount: positive styling for zero and above,
/// negative styling below zero.
pub open spec fn amount_tone_spec(v: int) -> Seq<char> {
    if v >= 0 { "text-positive-default"@ } else { "text-negative-default"@ }
}

/// Colour class of a cash amount.
pub fn amount_tone_class(v: i64) -> (r: &'static str)
    ensures
        r@ == amount_tone_spec(v as int),
{
    if v >= 0 { "text-positive-default" } else { "text-negative-default" }
}

/// The largest absolute cumulative position among the months, and at least
/// one: the scale of the cash-position chart.
pub open spec fn chart_max_abs_spec(cumulative: Seq<i64>) -> int
    decreases cumulative.len(),
{
    if cumulative.len() == 0 {
        1
    } else {
        let rest = chart_max_abs_spec(cumulative.drop_last());
        let v = cumulative.last() as int;
        let a = if v < 0 { -v } else { v };
        if a > rest { a } else { rest }
    }
}

/// Scale of the cash-position chart: the largest absolute cumulative
/// position, at least one.
pub fn chart_max_abs(cumulative: &Vec<i64>) -> (r: i64)
    requires
        forall|i: int| 0 <= i < cumulative@.len() ==> #[trigger] cumulative@[i] != i64::MIN,
    ensures
        r == chart_max_abs_spec(cumulative@),
{
    let mut max_abs: i64 = 1;
    let mut i: usize = 0;
    while i < cumulative.len()
        invariant
            i <= cumulative@.len(),
            forall|k: int| 0 <= k < cumulative@.len() ==> #[trigger] cumulative@[k] != i64::MIN,
            max_abs == chart_max_abs_spec(cumulative@.take(i as int)),
        decreases cumulative.len() - i,
    {
        proof {
            assert(cumulative@.take(i + 1).drop_last() =~= cumulative@.take(i as int));
        }
        let v = cumulative[i];
        let abs: i64 = if v < 0 { -v } else { v };
        if abs > max_abs {
            max_abs = abs;
        }
        i = i + 1;
    }
    assert(cumulative@.take(cumulative@.len() as int) =~= cumulative@);
    max_abs
}

} // verus!
