use vstd::prelude::*;
use crate::text::{str_eq, chars_of, string_from_chars, append_chars, split_chars, split_spec, join_spec, join_strings, owned};

verus! {

/// Display label for a dashboard role token.
pub open spec fn role_display_spec(role: Seq<char>) -> Seq<char> {
    if role == "hr"@ {
        "HR"@
    } else if role == "department_head"@ {
        "Department Head"@
    } else if role == "project_manager"@ {
        "Project Manager"@
    } else if role == "finance"@ {
        "Finance"@
    } else if role == "admin"@ {
        "Administrator"@
    } else {
        "User"@
    }
}

/// Display label for a dashboard role token; unknown roles show as `User`.
pub fn role_display(role: &str) -> (r: &'static str)
    ensures
        r@ == role_display_spec(role@),
{
    if str_eq(role, "hr") {
        "HR"
    } else if str_eq(role, "department_head") {
        "Department Head"
    } else if str_eq(role, "project_manager") {
        "Project Manager"
    } else if str_eq(role, "finance") {
        "Finance"
    } else if str_eq(role, "admin") {
        "Administrator"
    } else {
        "User"
    }
}

/// Text colour class for a `critical` / `warning` / `healthy` status token.
pub open spec fn status_text_class(token: Seq<char>) -> Seq<char> {
    if token == "critical"@ {
        "text-negative-default"@
    } else if token == "warning"@ {
        "text-warning-default"@
    } else if token == "healthy"@ {
        "text-positive-default"@
    } else {
        "text-huly-muted"@
    }
}

fn status_text_class_of(token: &str) -> (r: &'static str)
    ensures
        r@ == status_text_class(token@),
{
    if str_eq(token, "critical") {
        "text-negative-default"
    } else if str_eq(token, "warning") {
        "text-warning-default"
    } else if str_eq(token, "healthy") {
        "text-positive-default"
    } else {
        "text-huly-muted"
    }
}

/// Text colour class for a department budget health token.
pub fn budget_health_class(health: &str) -> (r: &'static str)
    ensures
        r@ == status_text_class(health@),
{
    status_text_class_of(health)
}

/// Text colour class for a project health token.
pub fn health_status_class(health_status: &str) -> (r: &'static str)
    ensures
        r@ == status_text_class(health_status@),
{
    status_text_class_of(health_status)
}

/// Human label for a budget health token.
pub open spec fn budget_health_label_spec(health: Seq<char>) -> Seq<char> {
    if health == "critical"@ {
        "At risk"@
    } else if health == "warning"@ {
        "Watch"@
    } else if health == "healthy"@ {
        "On track"@
    } else {
        "Unconfigured"@
    }
}

/// Human label for a department budget health token.
pub fn budget_health_label(health: &str) -> (r: &'static str)
    ensures
        r@ == budget_health_label_spec(health@),
{
    if str_eq(health, "critical") {
        "At risk"
    } else if str_eq(health, "warning") {
        "Watch"
    } else if str_eq(health, "healthy") {
        "On track"
    } else {
        "Unconfigured"
    }
}

/// Human label for a project health token.
pub open spec fn health_status_label_spec(health: Seq<char>) -> Seq<char> {
    if health == "critical"@ {
        "At risk"@
    } else if health == "warning"@ {
        "Watch"@
    } else if health == "healthy"@ {
        "Healthy"@
    } else {
        "Unconfigured"@
    }
}

/// Human label for a project health token.
pub fn health_status_label(health_status: &str) -> (r: &'static str)
    ensures
        r@ == health_status_label_spec(health_status@),
{
    if str_eq(health_status, "critical") {
        "At risk"
    } else if str_eq(health_status, "warning") {
        "Watch"
    } else if str_eq(health_status, "healthy") {
        "Healthy"
    } else {
        "Unconfigured"
    }
}

/// Badge class for a project budget: over budget always reads negative,
/// otherwise by status token.
pub open spec fn budget_badge_class_spec(status: Seq<char>, is_over_budget: bool) -> Seq<char> {
    if is_over_budget {
        "badge-negative"@
    } else if status == "critical"@ {
        "badge-negative"@
    } else if status == "warning"@ {
        "badge-warning"@
    } else if status == "healthy"@ {
        "badge-positive"@
    } else {
        "badge-neutral"@
    }
}

/// Badge class for a project budget.
pub fn budget_badge_class(budget_status: &str, is_over_budget: bool) -> (r: &'static str)
    ensures
        r@ == budget_badge_class_spec(budget_status@, is_over_budget),
{
    if is_over_budget {
        return "badge-negative";
    }
    if str_eq(budget_status, "critical") {
        "badge-negative"
    } else if str_eq(budget_status, "warning") {
        "badge-warning"
    } else if str_eq(budget_status, "healthy") {
        "badge-positive"
    } else {
        "badge-neutral"
    }
}

/// Badge label for a project budget.
pub open spec fn budget_badge_label_spec(status: Seq<char>, is_over_budget: bool) -> Seq<char> {
    if is_over_budget {
        "Over budget"@
    } else {
        budget_health_label_spec(status)
    }
}

/// Badge label for a project budget.
pub fn budget_badge_label(budget_status: &str, is_over_budget: bool) -> (r: &'static str)
    ensures
        r@ == budget_badge_label_spec(budget_status@, is_over_budget),
{
    if is_over_budget {
        return "Over budget";
    }
    budget_health_label(budget_status)
}

/// Label of a cash-flow category token.
pub open spec fn category_label_spec(category: Seq<char>) -> Seq<char> {
    if category == "client_payment"@ {
        "Client Payment"@
    } else if category == "interest"@ {
        "Interest"@
    } else if category == "other_income"@ {
        "Other Income"@
    } else if category == "payroll"@ {
        "Payroll"@
    } else if category == "vendor_payment"@ {
        "Vendor Payment"@
    } else if category == "expense"@ {
        "Expense"@
    } else if category == "tax"@ {
        "Tax"@
    } else {
        "Unknown"@
    }
}

/// Label of a cash-flow category token.
pub fn category_label(category: &str) -> (r: &'static str)
    ensures
        r@ == category_label_spec(category@),
{
    if str_eq(category, "client_payment") {
        "Client Payment"
    } else if str_eq(category, "interest") {
        "Interest"
    } else if str_eq(category, "other_income") {
        "Other Income"
    } else if str_eq(category, "payroll") {
        "Payroll"
    } else if str_eq(category, "vendor_payment") {
        "Vendor Payment"
    } else if str_eq(category, "expense") {
        "Expense"
    } else if str_eq(category, "tax") {
        "Tax"
    } else {
        "Unknown"
    }
}

/// The categories offered for an entry type: outflow categories for
/// `cash_out`, inflow categories for anything else.
pub open spec fn category_options_spec(entry_type: Seq<char>) -> Seq<(Seq<char>, Seq<char>)> {
    if entry_type == "cash_out"@ {
        seq![
            ("payroll"@, "Payroll"@),
            ("vendor_payment"@, "Vendor Payment"@),
            ("expense"@, "Expense"@),
            ("tax"@, "Tax"@),
        ]
    } else {
        seq![
            ("client_payment"@, "Client Payment"@),
            ("interest"@, "Interest"@),
            ("other_income"@, "Other Income"@),
        ]
    }
}

/// Token and label of each category offered for an entry type.
pub fn category_options(entry_type: &str) -> (r: Vec<(&'static str, &'static str)>)
    ensures
        r@.len() == category_options_spec(entry_type@).len(),
        forall|i: int| 0 <= i < r@.len() ==> (#[trigger] r@[i]).0@ == category_options_spec(entry_type@)[i].0
            && r@[i].1@ == category_options_spec(entry_type@)[i].1,
{
    if str_eq(entry_type, "cash_out") {
        vec![
            ("payroll", "Payroll"),
            ("vendor_payment", "Vendor Payment"),
            ("expense", "Expense"),
            ("tax", "Tax"),
        ]
    } else {
        vec![
            ("client_payment", "Client Payment"),
            ("interest", "Interest"),
            ("other_income", "Other Income"),
        ]
    }
}

/// Sort orders offered for project cards.
#[derive(Debug, Clone, Copy, PartialEq, Eq, Structural)]
pub enum PmSortMode {
    Margin,
    BudgetUtilization,
    EndDate,
}

impl PmSortMode {
    /// Label shown in the sort picker.
    pub fn label(&self) -> (r: &'static str)
        ensures
            r@ == (match *self {
                PmSortMode::Margin => "Margin"@,
                PmSortMode::BudgetUtilization => "Budget Utilization"@,
                PmSortMode::EndDate => "End Date"@,
            }),
    {
        match self {
            PmSortMode::Margin => "Margin",
            PmSortMode::BudgetUtilization => "Budget Utilization",
            PmSortMode::EndDate => "End Date",
        }
    }
}

/// What std's `char::to_uppercase` yields for `c`, collected.
pub uninterp spec fn char_upper(c: char) -> Seq<char>;

/// What std's `str::to_lowercase` yields for `s`.
pub uninterp spec fn str_lower(s: Seq<char>) -> Seq<char>;

/// Upper-case mapping of one character (std `char::to_uppercase`,
/// collected); the text is the named `char_upper`.
#[verifier::external_body]
pub(crate) fn char_to_uppercase(c: char) -> (r: String)
    ensures
        r@ == char_upper(c),
{
    c.to_uppercase().collect()
}

/// Lower-case mapping of a text (std `str::to_lowercase`); the text is the
/// named `str_lower`.
#[verifier::external_body]
pub(crate) fn str_to_lowercase(s: &str) -> (r: String)
    ensures
        r@ == str_lower(s@),
{
    s.to_lowercase()
}

/// A token with its first character upper-cased and the rest lower-cased.
pub open spec fn titleize_spec(token: Seq<char>) -> Seq<char> {
    if token.len() == 0 {
        Seq::empty()
    } else {
        char_upper(token[0]) + str_lower(token.drop_first())
    }
}

/// Capitalizes a token: `DISCREPANCY` gives `Discrepancy`.
pub fn titleize_token(token: &str) -> (r: String)
    ensures
        r@ == titleize_spec(token@),
{
    let cs = chars_of(token);
    if cs.len() == 0 {
        return String::new();
    }
    let mut rest: Vec<char> = Vec::new();
    let mut i: usize = 1;
    while i < cs.len()
        invariant
            1 <= i <= cs@.len(),
            rest@ == cs@.subrange(1, i as int),
        decreases cs.len() - i,
    {
        rest.push(cs[i]);
        i = i + 1;
    }
    assert(rest@ =~= cs@.drop_first());
    let rest_text = string_from_chars(&rest);
    let upper = char_to_uppercase(cs[0]);
    let lower = str_to_lowercase(rest_text.as_str());
    let mut out = chars_of(upper.as_str());
    let lower_chars = chars_of(lower.as_str());
    append_chars(&mut out, &lower_chars);
    string_from_chars(&out)
}

/// The `_`-separated words of a token, each titleized, joined by spaces.
pub open spec fn humanize_token(token: Seq<char>) -> Seq<char> {
    join_spec(
        split_spec(token, '_').filter(|p: Seq<char>| p.len() > 0).map_values(|p: Seq<char>| titleize_spec(p)),
        " "@,
    )
}

/// Titleizes each non-empty `_`-separated word and joins them with spaces.
pub fn humanize(token: &str) -> (r: String)
    ensures
        r@ == humanize_token(token@),
{
    let cs = chars_of(token);
    let parts = split_chars(&cs, '_');
    let ghost kept = split_spec(token@, '_').filter(|p: Seq<char>| p.len() > 0);
    let mut words: Vec<String> = Vec::new();
    let mut i: usize = 0;
    while i < parts.len()
        invariant
            i <= parts@.len(),
            parts@.len() == split_spec(token@, '_').len(),
            forall|k: int| 0 <= k < parts@.len() ==> #[trigger] parts@[k]@ == split_spec(token@, '_')[k],
            words@.map_values(|w: String| w@) == split_spec(token@, '_').take(i as int).filter(
                |p: Seq<char>| p.len() > 0,
            ).map_values(|p: Seq<char>| titleize_spec(p)),
        decreases parts.len() - i,
    {
        proof {
            reveal_with_fuel(Seq::filter, 1);
            assert(split_spec(token@, '_').take(i + 1).drop_last() == split_spec(token@, '_').take(i as int));
        }
        if parts[i].len() > 0 {
            let text = string_from_chars(&parts[i]);
            let w = titleize_token(text.as_str());
            let ghost before = words@;
            words.push(w);
            proof {
                assert(words@.map_values(|w: String| w@) =~= before.map_values(|w: String| w@).push(titleize_spec(parts@[i as int]@)));
            }
        }
        i = i + 1;
    }
    assert(split_spec(token@, '_').take(parts@.len() as int) == split_spec(token@, '_'));
    join_strings(&words, " ")
}

/// Label of a CTC field name: known fields by name, others humanized.
pub open spec fn field_label_spec(field: Seq<char>) -> Seq<char> {
    if field == "base_salary"@ {
        "Base Salary"@
    } else if field == "hra_allowance"@ {
        "HRA Allowance"@
    } else if field == "medical_allowance"@ {
        "Medical Allowance"@
    } else if field == "transport_allowance"@ {
        "Transport Allowance"@
    } else if field == "meal_allowance"@ {
        "Meal Allowance"@
    } else if field == "bpjs_kesehatan_employer"@ {
        "BPJS Kesehatan (Employer)"@
    } else if field == "bpjs_ketenagakerjaan_employer"@ {
        "BPJS Ketenagakerjaan (Employer)"@
    } else {
        humanize_token(field)
    }
}

/// Label of a CTC field name.
pub fn field_label(field: &str) -> (r: String)
    ensures
        r@ == field_label_spec(field@),
{
    if str_eq(field, "base_salary") {
        owned("Base Salary")
    } else if str_eq(field, "hra_allowance") {
        owned("HRA Allowance")
    } else if str_eq(field, "medical_allowance") {
        owned("Medical Allowance")
    } else if str_eq(field, "transport_allowance") {
        owned("Transport Allowance")
    } else if str_eq(field, "meal_allowance") {
        owned("Meal Allowance")
    } else if str_eq(field, "bpjs_kesehatan_employer") {
        owned("BPJS Kesehatan (Employer)")
    } else if str_eq(field, "bpjs_ketenagakerjaan_employer") {
        owned("BPJS Ketenagakerjaan (Employer)")
    } else {
        humanize(field)
    }
}

/// Label of a validation status token: known statuses by name, others
/// humanized.
pub open spec fn status_label_spec(status: Seq<char>) -> Seq<char> {
    if status == "BPJS_REGULATION_ERROR"@ {
        "BPJS Regulation Error"@
    } else if status == "MISSING_IN_XYNERGY"@ {
        "Missing in Xynergy"@
    } else if status == "DISCREPANCY"@ {
        "Discrepancy"@
    } else {
        humanize_token(status)
    }
}

/// Label of a validation status token.
pub fn status_label(status: &str) -> (r: String)
    ensures
        r@ == status_label_spec(status@),
{
    if str_eq(status, "BPJS_REGULATION_ERROR") {
        owned("BPJS Regulation Error")
    } else if str_eq(status, "MISSING_IN_XYNERGY") {
        owned("Missing in Xynergy")
    } else if str_eq(status, "DISCREPANCY") {
        owned("Discrepancy")
    } else {
        humanize(status)
    }
}

} // verus!
