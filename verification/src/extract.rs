use vstd::prelude::*;
use crate::text::{chars_of, string_from_chars, append_str};
use crate::numbers::{usize_text, int_text};
use crate::json::{Json, json_get, json_get_spec, json_str, json_as_str, value_to_i64, value_to_i64_spec};
use crate::ids::{parse_uuid, uuid_parse_spec};

verus! {

/// The integer under `key` of an object, or `default` when absent or not an
/// integer.
pub open spec fn member_i64(obj: Json, key: Seq<char>, default: int) -> int {
    match json_get_spec(obj, key) {
        Some(j) => match value_to_i64_spec(j) {
            Some(x) => x as int,
            None => default,
        },
        None => default,
    }
}

/// The member `key` holds an integer.
pub open spec fn member_has_i64(obj: Json, key: Seq<char>) -> bool {
    match json_get_spec(obj, key) {
        Some(j) => value_to_i64_spec(j) is Some,
        None => false,
    }
}

/// The string under `key` of an object, or the empty text.
pub open spec fn member_str(obj: Json, key: Seq<char>) -> Seq<char> {
    match json_get_spec(obj, key) {
        Some(j) => match json_as_str(j) {
            Some(s) => s,
            None => Seq::empty(),
        },
        None => Seq::empty(),
    }
}

/// The string under `key`, if there is one.
pub open spec fn member_opt_str(obj: Json, key: Seq<char>) -> Option<Seq<char>> {
    match json_get_spec(obj, key) {
        Some(j) => json_as_str(j),
        None => None,
    }
}

/// The elements of the array under `key`, or none.
pub open spec fn member_items(obj: Json, key: Seq<char>) -> Seq<Json> {
    match json_get_spec(obj, key) {
        Some(j) => match j {
            Json::Array(items) => items@,
            _ => Seq::empty(),
        },
        None => Seq::empty(),
    }
}

/// `a - b` but never below zero.
pub open spec fn missing_from(total: int, with: int) -> int {
    if total - with > 0 { total - with } else { 0 }
}

/// Integer member reader.
pub fn get_i64(obj: &Json, key: &str) -> (r: Option<i64>)
    ensures
        r == (match json_get_spec(*obj, key@) {
            Some(j) => value_to_i64_spec(j),
            None => None,
        }),
{
    match json_get(obj, key) {
        Some(v) => value_to_i64(v),
        None => None,
    }
}

/// String member reader, empty when absent.
pub fn get_str_or_empty(obj: &Json, key: &str) -> (r: String)
    ensures
        r@ == member_str(*obj, key@),
{
    match json_get(obj, key) {
        Some(v) => match json_str(v) {
            Some(s) => s.clone(),
            None => String::new(),
        },
        None => String::new(),
    }
}

/// String member reader.
pub fn get_opt_str(obj: &Json, key: &str) -> (r: Option<String>)
    ensures
        match r {
            Some(s) => member_opt_str(*obj, key@) == Some(s@),
            None => member_opt_str(*obj, key@) is None,
        },
{
    match json_get(obj, key) {
        Some(v) => match json_str(v) {
            Some(s) => Some(s.clone()),
            None => None,
        },
        None => None,
    }
}

/// Array member reader, empty when absent.
pub fn get_items<'a>(obj: &'a Json, key: &str) -> (r: &'a [Json])
    ensures
        r@ == member_items(*obj, key@),
{
    match json_get(obj, key) {
        Some(v) => match v {
            Json::Array(items) => items.as_slice(),
            _ => &[],
        },
        None => &[],
    }
}

/// A department line of the completeness report (percentages aside).
pub struct DepartmentCounts {
    pub row_key: String,
    pub department: String,
    pub total_employees: i64,
    pub with_ctc: i64,
    pub missing_ctc: i64,
}

/// A month of the completeness trend (percentages aside).
pub struct TrendCounts {
    pub month: String,
    pub total_employees: i64,
    pub total_with_ctc: i64,
    pub total_missing: i64,
}

/// The integer figures of a completeness report.
pub struct CompletenessCounts {
    pub departments: Vec<DepartmentCounts>,
    pub total_employees: i64,
    pub total_with_ctc: i64,
    pub total_missing: i64,
    pub trend: Vec<TrendCounts>,
}

/// Where a count of missing records is absent it is derived from the two
/// totals; the derivation must not overflow.
pub open spec fn derivation_fits(obj: Json, total_key: Seq<char>, with_key: Seq<char>, missing_key: Seq<char>) -> bool {
    !member_has_i64(obj, missing_key) ==> i64::MIN <= member_i64(obj, total_key, 0) - member_i64(obj, with_key, 0) <= i64::MAX
}

/// No derived count of a completeness body overflows.
pub open spec fn completeness_fits(body: Json) -> bool {
    &&& derivation_fits(body, "total_employees"@, "total_with_ctc"@, "total_missing"@)
    &&& forall|i: int| 0 <= i < member_items(body, "departments"@).len() ==> derivation_fits(
        #[trigger] member_items(body, "departments"@)[i], "total_employees"@, "with_ctc"@, "missing_ctc"@)
    &&& forall|i: int| 0 <= i < member_items(body, "trend"@).len() ==> derivation_fits(
        #[trigger] member_items(body, "trend"@)[i], "total_employees"@, "total_with_ctc"@, "total_missing"@)
}

/// Row key of a department line: its id, or `name:<department>:<index>` when
/// the id is missing.
pub open spec fn department_row_key(d: Json, index: int) -> Seq<char> {
    if member_str(d, "department_id"@).len() == 0 {
        "name:"@ + member_str(d, "department"@) + ":"@ + int_text(index)
    } else {
        member_str(d, "department_id"@)
    }
}

/// The department line read from element `index` of the report.
pub open spec fn department_counts_match(r: DepartmentCounts, d: Json, index: int) -> bool {
    let total = member_i64(d, "total_employees"@, 0);
    let with = member_i64(d, "with_ctc"@, 0);
    &&& r.row_key@ == department_row_key(d, index)
    &&& r.department@ == member_str(d, "department"@)
    &&& r.total_employees == total
    &&& r.with_ctc == with
    &&& r.missing_ctc == member_i64(d, "missing_ctc"@, missing_from(total, with))
}

/// The trend month read from one element of the report.
pub open spec fn trend_counts_match(r: TrendCounts, t: Json) -> bool {
    let total = member_i64(t, "total_employees"@, 0);
    let with = member_i64(t, "total_with_ctc"@, 0);
    &&& r.month@ == member_str(t, "month"@)
    &&& r.total_employees == total
    &&& r.total_with_ctc == with
    &&& r.total_missing == member_i64(t, "total_missing"@, missing_from(total, with))
}

/// Missing count: the member when present, else derived from the totals.
fn missing_or_derived(obj: &Json, missing_key: &str, total: i64, with: i64) -> (r: i64)
    requires
        !member_has_i64(*obj, missing_key@) ==> i64::MIN <= total - with <= i64::MAX,
    ensures
        r == member_i64(*obj, missing_key@, missing_from(total as int, with as int)),
{
    match get_i64(obj, missing_key) {
        Some(v) => v,
        None => {
            let d = total - with;
            if d > 0 { d } else { 0 }
        },
    }
}

/// Reads the integer figures of a completeness report, tolerating missing
/// fields: absent totals count as zero, and absent missing-counts are
/// derived from the totals (never below zero).
pub fn parse_completeness_counts(body: &Json) -> (r: CompletenessCounts)
    requires
        completeness_fits(*body),
    ensures
        r.total_employees == member_i64(*body, "total_employees"@, 0),
        r.total_with_ctc == member_i64(*body, "total_with_ctc"@, 0),
        r.total_missing == member_i64(*body, "total_missing"@, missing_from(r.total_employees as int, r.total_with_ctc as int)),
        r.departments@.len() == member_items(*body, "departments"@).len(),
        forall|i: int| 0 <= i < r.departments@.len() ==> department_counts_match(#[trigger] r.departments@[i], member_items(*body, "departments"@)[i], i),
        r.trend@.len() == member_items(*body, "trend"@).len(),
        forall|i: int| 0 <= i < r.trend@.len() ==> trend_counts_match(#[trigger] r.trend@[i], member_items(*body, "trend"@)[i]),
{
    let total_employees = match get_i64(body, "total_employees") { Some(v) => v, None => 0 };
    let total_with_ctc = match get_i64(body, "total_with_ctc") { Some(v) => v, None => 0 };
    let total_missing = missing_or_derived(body, "total_missing", total_employees, total_with_ctc);

    let items = get_items(body, "departments");
    let mut departments: Vec<DepartmentCounts> = Vec::new();
    let mut i: usize = 0;
    while i < items.len()
        invariant
            i <= items@.len(),
            items@ == member_items(*body, "departments"@),
            completeness_fits(*body),
            departments@.len() == i,
            forall|k: int| 0 <= k < i ==> department_counts_match(#[trigger] departments@[k], items@[k], k),
        decreases items.len() - i,
    {
        let d = &items[i];
        assert(derivation_fits(member_items(*body, "departments"@)[i as int], "total_employees"@, "with_ctc"@, "missing_ctc"@));
        let department_id = get_str_or_empty(d, "department_id");
        let department = get_str_or_empty(d, "department");
        let te = match get_i64(d, "total_employees") { Some(v) => v, None => 0 };
        let w = match get_i64(d, "with_ctc") { Some(v) => v, None => 0 };
        let missing = missing_or_derived(d, "missing_ctc", te, w);
        let row_key = if department_id.as_str().unicode_len() == 0 {
            let mut v = chars_of("name:");
            append_str(&mut v, department.as_str());
            append_str(&mut v, ":");
            let idx = usize_text(i);
            append_str(&mut v, idx.as_str());
            string_from_chars(&v)
        } else {
            department_id
        };
        departments.push(DepartmentCounts {
            row_key,
            department,
            total_employees: te,
            with_ctc: w,
            missing_ctc: missing,
        });
        i = i + 1;
    }

    let titems = get_items(body, "trend");
    let mut trend: Vec<TrendCounts> = Vec::new();
    let mut j: usize = 0;
    while j < titems.len()
        invariant
            j <= titems@.len(),
            titems@ == member_items(*body, "trend"@),
            completeness_fits(*body),
            trend@.len() == j,
            forall|k: int| 0 <= k < j ==> trend_counts_match(#[trigger] trend@[k], titems@[k]),
        decreases titems.len() - j,
    {
        let t = &titems[j];
        assert(derivation_fits(member_items(*body, "trend"@)[j as int], "total_employees"@, "total_with_ctc"@, "total_missing"@));
        let te = match get_i64(t, "total_employees") { Some(v) => v, None => 0 };
        let tw = match get_i64(t, "total_with_ctc") { Some(v) => v, None => 0 };
        let tm = missing_or_derived(t, "total_missing", te, tw);
        let month = get_str_or_empty(t, "month");
        trend.push(TrendCounts { month, total_employees: te, total_with_ctc: tw, total_missing: tm });
        j = j + 1;
    }

    CompletenessCounts { departments, total_employees, total_with_ctc, total_missing, trend }
}

/// An employee without a CTC record.
pub struct MissingEmployee {
    pub id: String,
    pub name: String,
    pub department: String,
}

/// The list of missing employees: the body itself when it is an array, else
/// its `missing_employees` array, else nothing.
pub open spec fn missing_employee_items(body: Json) -> Seq<Json> {
    match body {
        Json::Array(items) => items@,
        _ => member_items(body, "missing_employees"@),
    }
}

/// Reads the employees without a CTC record.
pub fn parse_missing_employees(body: &Json) -> (r: Vec<MissingEmployee>)
    ensures
        r@.len() == missing_employee_items(*body).len(),
        forall|i: int| 0 <= i < r@.len() ==> {
            let e = missing_employee_items(*body)[i];
            &&& (#[trigger] r@[i]).id@ == member_str(e, "id"@)
            &&& r@[i].name@ == member_str(e, "name"@)
            &&& r@[i].department@ == member_str(e, "department"@)
        },
{
    let items: &[Json] = match body {
        Json::Array(items) => items.as_slice(),
        _ => get_items(body, "missing_employees"),
    };
    let mut out: Vec<MissingEmployee> = Vec::new();
    let mut i: usize = 0;
    while i < items.len()
        invariant
            i <= items@.len(),
            items@ == missing_employee_items(*body),
            out@.len() == i,
            forall|k: int| 0 <= k < i ==> {
                let e = items@[k];
                &&& (#[trigger] out@[k]).id@ == member_str(e, "id"@)
                &&& out@[k].name@ == member_str(e, "name"@)
                &&& out@[k].department@ == member_str(e, "department"@)
            },
        decreases items.len() - i,
    {
        let e = &items[i];
        out.push(MissingEmployee {
            id: get_str_or_empty(e, "id"),
            name: get_str_or_empty(e, "name"),
            department: get_str_or_empty(e, "department"),
        });
        i = i + 1;
    }
    out
}

/// The `(id, name)` pairs of the elements that carry both as strings, in
/// order.
pub open spec fn id_name_pairs(values: Seq<Json>) -> Seq<(Seq<char>, Seq<char>)>
    decreases values.len(),
{
    if values.len() == 0 {
        Seq::empty()
    } else {
        let rest = id_name_pairs(values.drop_last());
        let v = values.last();
        match (member_opt_str(v, "id"@), member_opt_str(v, "name"@)) {
            (Some(id), Some(name)) => rest.push((id, name)),
            _ => rest,
        }
    }
}

/// Options for a department picker: the entries with a string `id` and
/// `name`.
pub fn parse_department_options(values: &Vec<Json>) -> (r: Vec<(String, String)>)
    ensures
        r@.len() == id_name_pairs(values@).len(),
        forall|i: int| 0 <= i < r@.len() ==> (#[trigger] r@[i]).0@ == id_name_pairs(values@)[i].0
            && r@[i].1@ == id_name_pairs(values@)[i].1,
{
    let mut out: Vec<(String, String)> = Vec::new();
    let mut i: usize = 0;
    while i < values.len()
        invariant
            i <= values@.len(),
            out@.len() == id_name_pairs(values@.take(i as int)).len(),
            forall|k: int| 0 <= k < out@.len() ==> (#[trigger] out@[k]).0@ == id_name_pairs(values@.take(i as int))[k].0
                && out@[k].1@ == id_name_pairs(values@.take(i as int))[k].1,
        decreases values.len() - i,
    {
        assert(values@.take(i + 1).drop_last() == values@.take(i as int));
        let v = &values[i];
        match (get_opt_str(v, "id"), get_opt_str(v, "name")) {
            (Some(id), Some(name)) => out.push((id, name)),
            _ => {},
        }
        i = i + 1;
    }
    assert(values@.take(values@.len() as int) == values@);
    out
}

/// A selectable employee for the CTC form.
pub struct ResourceOption {
    pub id: String,
    pub name: String,
    pub department_id: Option<String>,
}

/// The employees offered by the CTC form: elements with a string `id` and
/// `name`, with their optional department id.
pub open spec fn resource_options_spec(values: Seq<Json>) -> Seq<(Seq<char>, Seq<char>, Option<Seq<char>>)>
    decreases values.len(),
{
    if values.len() == 0 {
        Seq::empty()
    } else {
        let rest = resource_options_spec(values.drop_last());
        let v = values.last();
        match (member_opt_str(v, "id"@), member_opt_str(v, "name"@)) {
            (Some(id), Some(name)) => rest.push((id, name, member_opt_str(v, "department_id"@))),
            _ => rest,
        }
    }
}

/// Reads the employees offered by the CTC form.
pub fn parse_resource_options(values: &Vec<Json>) -> (r: Vec<ResourceOption>)
    ensures
        r@.len() == resource_options_spec(values@).len(),
        forall|i: int| 0 <= i < r@.len() ==> {
            let e = resource_options_spec(values@)[i];
            &&& (#[trigger] r@[i]).id@ == e.0
            &&& r@[i].name@ == e.1
            &&& match r@[i].department_id {
                Some(d) => e.2 == Some(d@),
                None => e.2 is None,
            }
        },
{
    let mut out: Vec<ResourceOption> = Vec::new();
    let mut i: usize = 0;
    while i < values.len()
        invariant
            i <= values@.len(),
            out@.len() == resource_options_spec(values@.take(i as int)).len(),
            forall|k: int| 0 <= k < out@.len() ==> {
                let e = resource_options_spec(values@.take(i as int))[k];
                &&& (#[trigger] out@[k]).id@ == e.0
                &&& out@[k].name@ == e.1
                &&& match out@[k].department_id {
                    Some(d) => e.2 == Some(d@),
                    None => e.2 is None,
                }
            },
        decreases values.len() - i,
    {
        assert(values@.take(i + 1).drop_last() == values@.take(i as int));
        let v = &values[i];
        match (get_opt_str(v, "id"), get_opt_str(v, "name")) {
            (Some(id), Some(name)) => {
                let department_id = get_opt_str(v, "department_id");
                out.push(ResourceOption { id, name, department_id });
            },
            _ => {},
        }
        i = i + 1;
    }
    assert(values@.take(values@.len() as int) == values@);
    out
}

/// The `(uuid, name)` pairs of elements whose `id` is a UUID string and that
/// have a string `name`.
pub open spec fn uuid_name_pairs(values: Seq<Json>) -> Seq<(u128, Seq<char>)>
    decreases values.len(),
{
    if values.len() == 0 {
        Seq::empty()
    } else {
        let rest = uuid_name_pairs(values.drop_last());
        let v = values.last();
        match member_opt_str(v, "id"@) {
            Some(id) => match uuid_parse_spec(id) {
                Some(u) => match member_opt_str(v, "name"@) {
                    Some(name) => rest.push((u, name)),
                    None => rest,
                },
                None => rest,
            },
            None => rest,
        }
    }
}

/// Options of the allocation form's resource and project pickers.
pub fn parse_uuid_name_options(values: &Vec<Json>) -> (r: Vec<(u128, String)>)
    ensures
        r@.len() == uuid_name_pairs(values@).len(),
        forall|i: int| 0 <= i < r@.len() ==> (#[trigger] r@[i]).0 == uuid_name_pairs(values@)[i].0
            && r@[i].1@ == uuid_name_pairs(values@)[i].1,
{
    let mut out: Vec<(u128, String)> = Vec::new();
    let mut i: usize = 0;
    while i < values.len()
        invariant
            i <= values@.len(),
            out@.len() == uuid_name_pairs(values@.take(i as int)).len(),
            forall|k: int| 0 <= k < out@.len() ==> (#[trigger] out@[k]).0 == uuid_name_pairs(values@.take(i as int))[k].0
                && out@[k].1@ == uuid_name_pairs(values@.take(i as int))[k].1,
        decreases values.len() - i,
    {
        assert(values@.take(i + 1).drop_last() == values@.take(i as int));
        let v = &values[i];
        match get_opt_str(v, "id") {
            Some(id) => match parse_uuid(id.as_str()) {
                Some(u) => match get_opt_str(v, "name") {
                    Some(name) => out.push((u, name)),
                    None => {},
                },
                None => {},
            },
            None => {},
        }
        i = i + 1;
    }
    assert(values@.take(values@.len() as int) == values@);
    out
}

/// One line of the BPJS compliance report.
pub struct ComplianceRow {
    pub resource_id: String,
    pub name: String,
    pub stored_bpjs_kes: i64,
    pub expected_bpjs_kes: i64,
    pub stored_bpjs_kt: i64,
    pub expected_bpjs_kt: i64,
    pub risk_tier: i64,
    pub status: String,
    pub variance_amount: i64,
}

/// The compliance line read from one result element.
pub open spec fn compliance_row_match(r: ComplianceRow, e: Json) -> bool {
    &&& r.resource_id@ == member_str(e, "resource_id"@)
    &&& r.name@ == member_str(e, "name"@)
    &&& r.stored_bpjs_kes == member_i64(e, "stored_bpjs_kes"@, 0)
    &&& r.expected_bpjs_kes == member_i64(e, "expected_bpjs_kes"@, 0)
    &&& r.stored_bpjs_kt == member_i64(e, "stored_bpjs_kt"@, 0)
    &&& r.expected_bpjs_kt == member_i64(e, "expected_bpjs_kt"@, 0)
    &&& r.risk_tier == member_i64(e, "risk_tier"@, 0)
    &&& r.status@ == member_str(e, "status"@)
    &&& r.variance_amount == member_i64(e, "variance_amount"@, 0)
}

/// The integer figures of a compliance report (its rate aside).
pub struct ComplianceCounts {
    pub rows: Vec<ComplianceRow>,
    pub total_validated: i64,
    pub passed: i64,
    pub discrepancies: i64,
}

/// Reads the compliance report: its totals (zero when absent) and its result
/// lines.
pub fn parse_compliance_counts(body: &Json) -> (r: ComplianceCounts)
    ensures
        r.total_validated == member_i64(*body, "total_validated"@, 0),
        r.passed == member_i64(*body, "passed"@, 0),
        r.discrepancies == member_i64(*body, "discrepancies"@, 0),
        r.rows@.len() == member_items(*body, "results"@).len(),
        forall|i: int| 0 <= i < r.rows@.len() ==> compliance_row_match(#[trigger] r.rows@[i], member_items(*body, "results"@)[i]),
{
    let total_validated = match get_i64(body, "total_validated") { Some(v) => v, None => 0 };
    let passed = match get_i64(body, "passed") { Some(v) => v, None => 0 };
    let discrepancies = match get_i64(body, "discrepancies") { Some(v) => v, None => 0 };
    let items = get_items(body, "results");
    let mut rows: Vec<ComplianceRow> = Vec::new();
    let mut i: usize = 0;
    while i < items.len()
        invariant
            i <= items@.len(),
            items@ == member_items(*body, "results"@),
            rows@.len() == i,
            forall|k: int| 0 <= k < i ==> compliance_row_match(#[trigger] rows@[k], items@[k]),
        decreases items.len() - i,
    {
        let e = &items[i];
        rows.push(ComplianceRow {
            resource_id: get_str_or_empty(e, "resource_id"),
            name: get_str_or_empty(e, "name"),
            stored_bpjs_kes: match get_i64(e, "stored_bpjs_kes") { Some(v) => v, None => 0 },
            expected_bpjs_kes: match get_i64(e, "expected_bpjs_kes") { Some(v) => v, None => 0 },
            stored_bpjs_kt: match get_i64(e, "stored_bpjs_kt") { Some(v) => v, None => 0 },
            expected_bpjs_kt: match get_i64(e, "expected_bpjs_kt") { Some(v) => v, None => 0 },
            risk_tier: match get_i64(e, "risk_tier") { Some(v) => v, None => 0 },
            status: get_str_or_empty(e, "status"),
            variance_amount: match get_i64(e, "variance_amount") { Some(v) => v, None => 0 },
        });
        i = i + 1;
    }
    ComplianceCounts { rows, total_validated, passed, discrepancies }
}

/// The CTC components already on record.
pub struct ExistingCtcValues {
    pub base_salary: i64,
    pub hra_allowance: i64,
    pub medical_allowance: i64,
    pub transport_allowance: i64,
    pub meal_allowance: i64,
}

/// The `components` object of a CTC details body (absent counts as empty).
pub open spec fn ctc_components(body: Json) -> Option<Json> {
    json_get_spec(body, "components"@)
}

/// The component `key`, zero when absent.
pub open spec fn component_or_zero(body: Json, key: Seq<char>) -> int {
    match ctc_components(body) {
        Some(c) => member_i64(c, key, 0),
        None => 0,
    }
}

/// Reads the CTC components on record: `None` when there is no base salary,
/// otherwise every allowance (zero when absent).
pub fn parse_existing_ctc(body: &Json) -> (r: Option<ExistingCtcValues>)
    ensures
        match ctc_components(*body) {
            Some(c) => r is Some <==> member_has_i64(c, "base_salary"@),
            None => r is None,
        },
        r matches Some(v) ==> {
            &&& v.base_salary == component_or_zero(*body, "base_salary"@)
            &&& v.hra_allowance == component_or_zero(*body, "hra_allowance"@)
            &&& v.medical_allowance == component_or_zero(*body, "medical_allowance"@)
            &&& v.transport_allowance == component_or_zero(*body, "transport_allowance"@)
            &&& v.meal_allowance == component_or_zero(*body, "meal_allowance"@)
        },
{
    let components = match json_get(body, "components") {
        Some(c) => c,
        None => return None,
    };
    let base_salary = match get_i64(components, "base_salary") {
        Some(v) => v,
        None => return None,
    };
    Some(ExistingCtcValues {
        base_salary,
        hra_allowance: match get_i64(components, "hra_allowance") { Some(v) => v, None => 0 },
        medical_allowance: match get_i64(components, "medical_allowance") { Some(v) => v, None => 0 },
        transport_allowance: match get_i64(components, "transport_allowance") { Some(v) => v, None => 0 },
        meal_allowance: match get_i64(components, "meal_allowance") { Some(v) => v, None => 0 },
    })
}

} // verus!
