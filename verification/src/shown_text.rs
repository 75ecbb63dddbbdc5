use vstd::prelude::*;
use crate::ids::{uuid_hyphenated, hex32, hex_char, nibble, lemma_nibble_range};
use crate::numbers::{int_text, decimal_digits, digit_char};
use crate::dashboard::{id_or_name, pipe2, pipe3, opt_text, bool_text, fold_rows,
    HrDashboard, RecentCtcChange, HrMissingEmployee, ComplianceTopRisk, hr_entries, hr_scalars,
    hr_recent_stepper, hr_sample_stepper, hr_risk_stepper, recent_change_key,
    DepartmentHeadDashboard, UtilizationAtRisk, UpcomingAssignment, TeamUtilizationMember, TeamUtilizationTrend,
    TeamUtilizationTrendPeriod, dh_entries, dh_top_at_risk_stepper, dh_overalloc_stepper, dh_upcoming_stepper,
    dh_member_stepper, dh_trend_member_stepper, dh_period_stepper, team_member_key_spec, trend_period_key_spec,
    assignment_name_part, shown_underutilized, underutilized_count,
    ProjectManagerDashboard, ProjectHealthCard, MarginAlert, pm_entries, pm_project_stepper, pm_alert_stepper, project_id_key,
    FinanceDashboard, AuditAlertEntry, PendingExportRequest, finance_entries, fin_recent_stepper, fin_pending_stepper,
    opt_count_text, audit_alert_total, AdminDashboard, admin_entries, RoleDashboardResponse, dashboard_values};

verus! {

/// The words that name CTC ciphertext, key metadata or salary components.
pub open spec fn sensitive_word(j: int) -> Seq<char> {
    if j == 0 {
        "encrypted_components"@
    } else if j == 1 {
        "encrypted_daily_rate"@
    } else if j == 2 {
        "ciphertext"@
    } else if j == 3 {
        "key_version"@
    } else if j == 4 {
        "encryption_algorithm"@
    } else if j == 5 {
        "encryption_version"@
    } else if j == 6 {
        "base_salary"@
    } else {
        "daily_rate"@
    }
}

/// `t` occurs in `s` starting at position `i`.
pub open spec fn occurs_at(s: Seq<char>, t: Seq<char>, i: int) -> bool {
    0 <= i && i + t.len() <= s.len() && s.subrange(i, i + t.len()) == t
}

/// No sensitive word occurs in `s`.
pub open spec fn free_of_sensitive_words(s: Seq<char>) -> bool {
    forall|j: int, i: int| 0 <= j < 8 ==> !#[trigger] occurs_at(s, sensitive_word(j), i)
}

/// Key and value separators.
pub open spec fn is_separator(c: char) -> bool {
    c == '.' || c == '|'
}

/// Where the `x` or `y` of sensitive word `j` sits.
spec fn xy_position(j: int) -> int {
    if j == 0 { 4 } else if j == 1 { 4 } else if j == 2 { 8 } else if j == 3 { 2 } else if j == 4 { 4 }
    else if j == 5 { 4 } else if j == 6 { 10 } else { 4 }
}

proof fn lemma_words_shape(j: int)
    requires
        0 <= j < 8,
    ensures
        0 <= xy_position(j) < sensitive_word(j).len(),
        sensitive_word(j)[xy_position(j)] == 'x' || sensitive_word(j)[xy_position(j)] == 'y',
        forall|k: int| 0 <= k < sensitive_word(j).len() ==> !is_separator(#[trigger] sensitive_word(j)[k]),
        sensitive_word(j).len() >= 10,
{
    reveal_strlit("encrypted_components");
    reveal_strlit("encrypted_daily_rate");
    reveal_strlit("ciphertext");
    reveal_strlit("key_version");
    reveal_strlit("encryption_algorithm");
    reveal_strlit("encryption_version");
    reveal_strlit("base_salary");
    reveal_strlit("daily_rate");
}

/// Text without `x` or `y` holds no sensitive word.
pub proof fn lemma_xy_free_is_free(s: Seq<char>)
    requires
        forall|i: int| 0 <= i < s.len() ==> #[trigger] s[i] != 'x' && s[i] != 'y',
    ensures
        free_of_sensitive_words(s),
{
    assert forall|j: int, i: int| 0 <= j < 8 implies !#[trigger] occurs_at(s, sensitive_word(j), i) by {
        lemma_words_shape(j);
        if occurs_at(s, sensitive_word(j), i) {
            let p = xy_position(j);
            assert(s.subrange(i, i + sensitive_word(j).len())[p] == s[i + p]);
        }
    }
}

/// Joining two texts free of sensitive words at a separator keeps them free.
pub proof fn lemma_join_free(x: Seq<char>, y: Seq<char>)
    requires
        free_of_sensitive_words(x),
        free_of_sensitive_words(y),
        (x.len() > 0 && is_separator(x.last())) || (y.len() > 0 && is_separator(y[0])),
    ensures
        free_of_sensitive_words(x + y),
{
    let s = x + y;
    assert forall|j: int, i: int| 0 <= j < 8 implies !#[trigger] occurs_at(s, sensitive_word(j), i) by {
        lemma_words_shape(j);
        let t = sensitive_word(j);
        if occurs_at(s, t, i) {
            if i + t.len() <= x.len() {
                assert(x.subrange(i, i + t.len()) =~= s.subrange(i, i + t.len()));
                assert(occurs_at(x, t, i));
            } else if i >= x.len() {
                assert(y.subrange(i - x.len(), i - x.len() + t.len()) =~= s.subrange(i, i + t.len()));
                assert(occurs_at(y, t, i - x.len()));
            } else if x.len() > 0 && is_separator(x.last()) {
                let k = x.len() - 1 - i;
                assert(s.subrange(i, i + t.len())[k] == s[x.len() - 1]);
                assert(!is_separator(t[k]));
            } else {
                let k = x.len() - i;
                assert(s.subrange(i, i + t.len())[k] == s[x.len() as int]);
                assert(!is_separator(t[k]));
            }
        }
    }
}

/// No `x` or `y` can start a sensitive word at position `p` of `s`: every
/// sensitive word holds an `x` or a `y` whose distance from the word's first
/// letter, and that letter, are fixed.
pub open spec fn no_word_through(s: Seq<char>, p: int) -> bool {
    &&& s[p] == 'x' ==> p < 8 || s[p - 8] != 'c'
    &&& s[p] == 'y' ==> (p < 2 || s[p - 2] != 'k') && (p < 4 || (s[p - 4] != 'e' && s[p - 4] != 'd')) && (p < 10 || s[p - 10] != 'b')
}

/// Text whose every `x` and `y` is placed so that no sensitive word can run
/// through it holds no sensitive word.
pub proof fn lemma_anchored_is_free(s: Seq<char>)
    requires
        forall|p: int| 0 <= p < s.len() ==> #[trigger] no_word_through(s, p),
    ensures
        free_of_sensitive_words(s),
{
    reveal_strlit("encrypted_components");
    reveal_strlit("encrypted_daily_rate");
    reveal_strlit("ciphertext");
    reveal_strlit("key_version");
    reveal_strlit("encryption_algorithm");
    reveal_strlit("encryption_version");
    reveal_strlit("base_salary");
    reveal_strlit("daily_rate");
    assert forall|j: int, i: int| 0 <= j < 8 implies !#[trigger] occurs_at(s, sensitive_word(j), i) by {
        lemma_words_shape(j);
        if occurs_at(s, sensitive_word(j), i) {
            let t = sensitive_word(j);
            let w = s.subrange(i, i + t.len());
            let p = i + xy_position(j);
            assert(no_word_through(s, p));
            assert(w[xy_position(j)] == s[p]);
            assert(w[0] == s[i]);
        }
    }
}

/// Text without `x` and `y`.
pub open spec fn plain(s: Seq<char>) -> bool {
    forall|i: int| 0 <= i < s.len() ==> #[trigger] s[i] != 'x' && s[i] != 'y'
}

pub proof fn lemma_plain_is_free(s: Seq<char>)
    requires
        plain(s),
    ensures
        free_of_sensitive_words(s),
{
    assert forall|p: int| 0 <= p < s.len() implies #[trigger] no_word_through(s, p) by {
        assert(s[p] != 'x' && s[p] != 'y');
    }
    lemma_anchored_is_free(s);
}

pub proof fn lemma_plain_join(x: Seq<char>, y: Seq<char>)
    requires
        plain(x),
        plain(y),
    ensures
        plain(x + y),
{
    assert forall|i: int| 0 <= i < (x + y).len() implies #[trigger] (x + y)[i] != 'x' && (x + y)[i] != 'y' by {
        if i < x.len() {
            assert((x + y)[i] == x[i]);
        } else {
            assert((x + y)[i] == y[i - x.len()]);
        }
    }
}

/// A UUID's text is hex digits and hyphens.
pub proof fn lemma_uuid_plain(u: u128)
    ensures
        plain(uuid_hyphenated(u)),
{
    let h = hex32(u);
    assert forall|k: int| 0 <= k < 32 implies #[trigger] h[k] != 'x' && h[k] != 'y' by {
        lemma_nibble_range(u, k);
        let d = nibble(u, k);
        assert(h[k] == hex_char(d));
    }
    let s = uuid_hyphenated(u);
    assert forall|i: int| 0 <= i < s.len() implies #[trigger] s[i] != 'x' && s[i] != 'y' by {
        if i < 8 { assert(s[i] == h[i]); }
        else if i == 8 || i == 13 || i == 18 || i == 23 { }
        else if i < 13 { assert(s[i] == h[i - 1]); }
        else if i < 18 { assert(s[i] == h[i - 2]); }
        else if i < 23 { assert(s[i] == h[i - 3]); }
        else { assert(s[i] == h[i - 4]); }
    }
}

proof fn lemma_digits_plain(n: nat)
    ensures
        plain(decimal_digits(n)),
    decreases n,
{
    if n >= 10 {
        lemma_digits_plain(n / 10);
        let d = decimal_digits(n / 10);
        assert forall|i: int| 0 <= i < d.push(digit_char((n % 10) as int)).len() implies
            #[trigger] d.push(digit_char((n % 10) as int))[i] != 'x' && d.push(digit_char((n % 10) as int))[i] != 'y' by {
            if i < d.len() {
                assert(d[i] != 'x' && d[i] != 'y');
            }
        }
    }
}

/// A number's text is digits and a sign.
pub proof fn lemma_int_plain(i: int)
    ensures
        plain(int_text(i)),
{
    if i < 0 {
        lemma_digits_plain((-i) as nat);
        lemma_plain_join(seq!['-'], decimal_digits((-i) as nat));
    } else {
        lemma_digits_plain(i as nat);
    }
}

pub proof fn lemma_empty_free()
    ensures
        free_of_sensitive_words(Seq::<char>::empty()),
{
    lemma_plain_is_free(Seq::<char>::empty());
}

pub proof fn lemma_int_free(i: int)
    ensures
        free_of_sensitive_words(int_text(i)),
{
    lemma_int_plain(i);
    lemma_plain_is_free(int_text(i));
}

pub proof fn lemma_bool_free(b: bool)
    ensures
        free_of_sensitive_words(bool_text(b)),
{
    reveal_strlit("true");
    reveal_strlit("false");
    lemma_plain_is_free("true"@);
    lemma_plain_is_free("false"@);
}

/// `a|b` and `a|b|c` of texts free of sensitive words are free of them.
pub proof fn lemma_pipes_free(a: Seq<char>, b: Seq<char>, c: Seq<char>)
    requires
        free_of_sensitive_words(a),
        free_of_sensitive_words(b),
        free_of_sensitive_words(c),
    ensures
        free_of_sensitive_words(pipe2(a, b)),
        free_of_sensitive_words(pipe3(a, b, c)),
{
    reveal_strlit("|");
    lemma_plain_is_free("|"@);
    lemma_join_free(a, "|"@);
    lemma_join_free(a + "|"@, b);
    lemma_join_free(a + "|"@ + b, "|"@);
    lemma_join_free(a + "|"@ + b + "|"@, c);
}

/// A prefix ending in a separator followed by a UUID or by a free name.
pub proof fn lemma_id_or_name_free(idp: Seq<char>, id: Option<u128>, np: Seq<char>, name: Seq<char>)
    requires
        free_of_sensitive_words(idp),
        free_of_sensitive_words(np),
        free_of_sensitive_words(name),
        idp.len() > 0 && is_separator(idp.last()),
        np.len() > 0 && is_separator(np.last()),
    ensures
        free_of_sensitive_words(id_or_name(idp, id, np, name)),
{
    match id {
        Some(u) => {
            lemma_uuid_plain(u);
            lemma_plain_is_free(uuid_hyphenated(u));
            lemma_join_free(idp, uuid_hyphenated(u));
        },
        None => {
            lemma_join_free(np, name);
        },
    }
}

pub proof fn lemma_opt_free(o: Option<String>)
    requires
        o matches Some(t) ==> free_of_sensitive_words(t@),
    ensures
        free_of_sensitive_words(opt_text(o)),
{
    lemma_empty_free();
}

/// Every key and every value of `m` is free of sensitive words.
pub open spec fn entries_free(m: Map<Seq<char>, Seq<char>>) -> bool {
    forall|k: Seq<char>| #[trigger] m.dom().contains(k) ==> free_of_sensitive_words(k) && free_of_sensitive_words(m[k])
}

pub proof fn lemma_insert_free(m: Map<Seq<char>, Seq<char>>, k: Seq<char>, v: Seq<char>)
    requires
        entries_free(m),
        free_of_sensitive_words(k),
        free_of_sensitive_words(v),
    ensures
        entries_free(m.insert(k, v)),
{
    assert forall|k2: Seq<char>| #[trigger] m.insert(k, v).dom().contains(k2) implies
        free_of_sensitive_words(k2) && free_of_sensitive_words(m.insert(k, v)[k2]) by {
        if k2 != k {
            assert(m.dom().contains(k2));
        }
    }
}

/// A fold whose steps keep the entries free, over rows that each pass `ok`,
/// keeps them free.
pub proof fn lemma_fold_free<T>(
    m: Map<Seq<char>, Seq<char>>,
    rows: Seq<T>,
    step: spec_fn(Map<Seq<char>, Seq<char>>, T) -> Map<Seq<char>, Seq<char>>,
    ok: spec_fn(T) -> bool,
)
    requires
        entries_free(m),
        forall|i: int| 0 <= i < rows.len() ==> #[trigger] ok(rows[i]),
        forall|mm: Map<Seq<char>, Seq<char>>, r: T| entries_free(mm) && ok(r) ==> #[trigger] entries_free(step(mm, r)),
    ensures
        entries_free(fold_rows(m, rows, step)),
    decreases rows.len(),
{
    if rows.len() > 0 {
        assert forall|i: int| 0 <= i < rows.drop_last().len() implies #[trigger] ok(rows.drop_last()[i]) by {
            assert(ok(rows[i]));
        }
        lemma_fold_free(m, rows.drop_last(), step, ok);
        assert(ok(rows[rows.len() - 1]));
    }
}

/// The shown texts of a CTC revision.
pub open spec fn revision_text_free(c: RecentCtcChange) -> bool {
    &&& free_of_sensitive_words(c.resource_name@)
    &&& (c.changed_by_name matches Some(t) ==> free_of_sensitive_words(t@))
    &&& free_of_sensitive_words(c.created_at@)
}

/// The shown texts of an employee missing a CTC record.
pub open spec fn missing_text_free(e: HrMissingEmployee) -> bool {
    free_of_sensitive_words(e.name@) && free_of_sensitive_words(e.department@)
}

/// The shown texts of the HR section hold no sensitive word.
pub open spec fn hr_text_free(h: HrDashboard) -> bool {
    &&& free_of_sensitive_words(h.completeness.overall_completion_pct_text@)
    &&& free_of_sensitive_words(h.compliance_alerts.compliance_rate_pct_text@)
    &&& forall|i: int| 0 <= i < h.recent_changes@.len() ==> revision_text_free(#[trigger] h.recent_changes@[i])
    &&& forall|i: int| 0 <= i < h.pending_updates.sample@.len() ==> missing_text_free(#[trigger] h.pending_updates.sample@[i])
    &&& forall|i: int| 0 <= i < h.compliance_alerts.top_risks@.len()
        ==> free_of_sensitive_words((#[trigger] h.compliance_alerts.top_risks@[i]).name@)
}

proof fn lemma_hr_free(m: Map<Seq<char>, Seq<char>>, h: HrDashboard)
    requires
        entries_free(m),
        hr_text_free(h),
    ensures
        entries_free(hr_entries(m, h)),
{
    reveal_strlit("hr.completeness.overall_completion_pct");
    lemma_plain_is_free("hr.completeness.overall_completion_pct"@);
    reveal_strlit("hr.completeness.total_with_ctc");
    lemma_plain_is_free("hr.completeness.total_with_ctc"@);
    reveal_strlit("hr.completeness.total_employees");
    lemma_anchored_is_free("hr.completeness.total_employees"@);
    reveal_strlit("hr.pending_updates.missing_count");
    lemma_plain_is_free("hr.pending_updates.missing_count"@);
    reveal_strlit("hr.compliance_alerts.compliance_rate_pct");
    lemma_plain_is_free("hr.compliance_alerts.compliance_rate_pct"@);
    reveal_strlit("hr.compliance_alerts.total_discrepancies");
    lemma_plain_is_free("hr.compliance_alerts.total_discrepancies"@);
    reveal_strlit("hr.compliance_alerts.total_validated");
    lemma_plain_is_free("hr.compliance_alerts.total_validated"@);
    reveal_strlit("hr.compliance_alerts.total_passed");
    lemma_plain_is_free("hr.compliance_alerts.total_passed"@);
    lemma_int_free(h.completeness.total_with_ctc as int);
    lemma_int_free(h.completeness.total_employees as int);
    lemma_int_free(h.pending_updates.missing_count as int);
    lemma_int_free(h.compliance_alerts.total_discrepancies as int);
    lemma_int_free(h.compliance_alerts.total_validated as int);
    lemma_int_free(h.compliance_alerts.total_passed as int);
    let s = hr_scalars(m, h);
    assert(entries_free(s)) by {
        let m1 = m.insert("hr.completeness.overall_completion_pct"@, h.completeness.overall_completion_pct_text@);
        lemma_insert_free(m, "hr.completeness.overall_completion_pct"@, h.completeness.overall_completion_pct_text@);
        let m2 = m1.insert("hr.completeness.total_with_ctc"@, int_text(h.completeness.total_with_ctc as int));
        lemma_insert_free(m1, "hr.completeness.total_with_ctc"@, int_text(h.completeness.total_with_ctc as int));
        let m3 = m2.insert("hr.completeness.total_employees"@, int_text(h.completeness.total_employees as int));
        lemma_insert_free(m2, "hr.completeness.total_employees"@, int_text(h.completeness.total_employees as int));
        let m4 = m3.insert("hr.pending_updates.missing_count"@, int_text(h.pending_updates.missing_count as int));
        lemma_insert_free(m3, "hr.pending_updates.missing_count"@, int_text(h.pending_updates.missing_count as int));
        let m5 = m4.insert("hr.compliance_alerts.compliance_rate_pct"@, h.compliance_alerts.compliance_rate_pct_text@);
        lemma_insert_free(m4, "hr.compliance_alerts.compliance_rate_pct"@, h.compliance_alerts.compliance_rate_pct_text@);
        let m6 = m5.insert("hr.compliance_alerts.total_discrepancies"@, int_text(h.compliance_alerts.total_discrepancies as int));
        lemma_insert_free(m5, "hr.compliance_alerts.total_discrepancies"@, int_text(h.compliance_alerts.total_discrepancies as int));
        let m7 = m6.insert("hr.compliance_alerts.total_validated"@, int_text(h.compliance_alerts.total_validated as int));
        lemma_insert_free(m6, "hr.compliance_alerts.total_validated"@, int_text(h.compliance_alerts.total_validated as int));
        lemma_insert_free(m7, "hr.compliance_alerts.total_passed"@, int_text(h.compliance_alerts.total_passed as int));
    }
    reveal_strlit("hr.recent_changes.");
    lemma_plain_is_free("hr.recent_changes."@);
    reveal_strlit("hr.recent_changes.name.");
    lemma_plain_is_free("hr.recent_changes.name."@);
    reveal_strlit("|rev");
    lemma_plain_is_free("|rev"@);
    assert forall|mm: Map<Seq<char>, Seq<char>>, c: RecentCtcChange|
        entries_free(mm) && (|x: RecentCtcChange| revision_text_free(x))(c) implies #[trigger] entries_free(hr_recent_stepper()(mm, c)) by {
        let idn = id_or_name("hr.recent_changes."@, c.resource_id, "hr.recent_changes.name."@, c.resource_name@);
        lemma_id_or_name_free("hr.recent_changes."@, c.resource_id, "hr.recent_changes.name."@, c.resource_name@);
        let rev = int_text(c.revision_number as int);
        lemma_int_plain(c.revision_number as int);
        lemma_plain_join("|rev"@, rev);
        lemma_plain_is_free("|rev"@ + rev);
        lemma_join_free(idn, "|rev"@ + rev);
        assert(idn + "|rev"@ + rev =~= idn + ("|rev"@ + rev));
        lemma_pipes_free(idn + "|rev"@ + rev, c.created_at@, c.created_at@);
        assert(recent_change_key(c) == pipe2(idn + "|rev"@ + rev, c.created_at@));
        lemma_opt_free(c.changed_by_name);
        lemma_pipes_free(c.resource_name@, opt_text(c.changed_by_name), c.created_at@);
        lemma_insert_free(mm, recent_change_key(c), pipe2(c.resource_name@, opt_text(c.changed_by_name)));
    }
    lemma_fold_free(s, h.recent_changes@, hr_recent_stepper(), |x: RecentCtcChange| revision_text_free(x));
    let s2 = fold_rows(s, h.recent_changes@, hr_recent_stepper());
    reveal_strlit("hr.pending_updates.sample.");
    lemma_plain_is_free("hr.pending_updates.sample."@);
    reveal_strlit("hr.pending_updates.sample.name.");
    lemma_plain_is_free("hr.pending_updates.sample.name."@);
    assert forall|mm: Map<Seq<char>, Seq<char>>, e: HrMissingEmployee|
        entries_free(mm) && (|x: HrMissingEmployee| missing_text_free(x))(e) implies #[trigger] entries_free(hr_sample_stepper()(mm, e)) by {
        lemma_pipes_free(e.name@, e.department@, e.name@);
        lemma_id_or_name_free("hr.pending_updates.sample."@, e.id, "hr.pending_updates.sample.name."@, pipe2(e.name@, e.department@));
        lemma_insert_free(mm, id_or_name("hr.pending_updates.sample."@, e.id, "hr.pending_updates.sample.name."@, pipe2(e.name@, e.department@)),
            pipe2(e.name@, e.department@));
    }
    lemma_fold_free(s2, h.pending_updates.sample@, hr_sample_stepper(), |x: HrMissingEmployee| missing_text_free(x));
    let s3 = fold_rows(s2, h.pending_updates.sample@, hr_sample_stepper());
    reveal_strlit("hr.compliance_alerts.top_risks.");
    lemma_plain_is_free("hr.compliance_alerts.top_risks."@);
    reveal_strlit("hr.compliance_alerts.top_risks.name.");
    lemma_plain_is_free("hr.compliance_alerts.top_risks.name."@);
    assert forall|mm: Map<Seq<char>, Seq<char>>, r: ComplianceTopRisk|
        entries_free(mm) && (|x: ComplianceTopRisk| free_of_sensitive_words(x.name@))(r) implies #[trigger] entries_free(hr_risk_stepper()(mm, r)) by {
        lemma_int_free(r.variance_amount as int);
        let v = pipe2(r.name@, int_text(r.variance_amount as int));
        lemma_pipes_free(r.name@, int_text(r.variance_amount as int), r.name@);
        lemma_id_or_name_free("hr.compliance_alerts.top_risks."@, r.resource_id, "hr.compliance_alerts.top_risks.name."@, v);
        lemma_insert_free(mm, id_or_name("hr.compliance_alerts.top_risks."@, r.resource_id, "hr.compliance_alerts.top_risks.name."@, v), v);
    }
    lemma_fold_free(s3, h.compliance_alerts.top_risks@, hr_risk_stepper(), |x: ComplianceTopRisk| free_of_sensitive_words(x.name@));
}

/// `x|y` of texts free of sensitive words is free of them.
pub proof fn lemma_bar_join(x: Seq<char>, y: Seq<char>)
    requires
        free_of_sensitive_words(x),
        free_of_sensitive_words(y),
    ensures
        free_of_sensitive_words(x + "|"@ + y),
{
    lemma_pipes_free(x, y, y);
}

/// Inserting a free key with a free value keeps the entries free.
pub proof fn lemma_inserts_free()
    ensures
        forall|mm: Map<Seq<char>, Seq<char>>, k: Seq<char>, v: Seq<char>|
            entries_free(mm) && free_of_sensitive_words(k) && free_of_sensitive_words(v)
            ==> #[trigger] entries_free(mm.insert(k, v)),
{
    assert forall|mm: Map<Seq<char>, Seq<char>>, k: Seq<char>, v: Seq<char>|
        entries_free(mm) && free_of_sensitive_words(k) && free_of_sensitive_words(v)
        implies #[trigger] entries_free(mm.insert(k, v)) by {
        lemma_insert_free(mm, k, v);
    }
}

/// The shown texts of an at-risk member.
pub open spec fn at_risk_text_free(r: UtilizationAtRisk) -> bool {
    free_of_sensitive_words(r.resource_name@) && free_of_sensitive_words(r.current_allocation_pct_text@)
}

/// The shown texts of an upcoming assignment.
pub open spec fn assignment_text_free(a: UpcomingAssignment) -> bool {
    &&& free_of_sensitive_words(a.resource_name@)
    &&& free_of_sensitive_words(a.project_name@)
    &&& free_of_sensitive_words(a.start_date@)
    &&& free_of_sensitive_words(a.end_date@)
    &&& free_of_sensitive_words(a.allocation_percentage_text@)
}

/// The shown texts of a team member.
pub open spec fn member_text_free(t: TeamUtilizationMember) -> bool {
    &&& free_of_sensitive_words(t.resource_name@)
    &&& free_of_sensitive_words(t.role@)
    &&& free_of_sensitive_words(t.current_utilization_pct_text@)
    &&& free_of_sensitive_words(t.available_capacity_pct_text@)
    &&& free_of_sensitive_words(t.ctc_status@)
    &&& free_of_sensitive_words(t.current_projects_summary@)
}

/// The shown texts of one trend period.
pub open spec fn period_text_free(p: TeamUtilizationTrendPeriod) -> bool {
    free_of_sensitive_words(p.period@) && free_of_sensitive_words(p.utilization_pct_text@)
}

/// The shown texts of a trend row.
pub open spec fn trend_text_free(t: TeamUtilizationTrend) -> bool {
    &&& free_of_sensitive_words(t.resource_name@)
    &&& forall|i: int| 0 <= i < t.periods@.len() ==> period_text_free(#[trigger] t.periods@[i])
}

/// The shown texts of the department-head section hold no sensitive word.
pub open spec fn dh_text_free(d: DepartmentHeadDashboard) -> bool {
    &&& free_of_sensitive_words(d.utilization.average_utilization_pct_text@)
    &&& free_of_sensitive_words(d.avg_available_capacity_pct_text@)
    &&& (d.budget matches Some(b) ==> free_of_sensitive_words(b.utilization_percentage_text@) && free_of_sensitive_words(b.budget_health@))
    &&& forall|i: int| 0 <= i < d.utilization.top_at_risk@.len() ==> at_risk_text_free(#[trigger] d.utilization.top_at_risk@[i])
    &&& forall|i: int| 0 <= i < d.overallocations.members@.len() ==> at_risk_text_free(#[trigger] d.overallocations.members@[i])
    &&& forall|i: int| 0 <= i < d.upcoming_assignments@.len() ==> assignment_text_free(#[trigger] d.upcoming_assignments@[i])
    &&& forall|i: int| 0 <= i < d.team_members@.len() ==> member_text_free(#[trigger] d.team_members@[i])
    &&& (d.utilization_trends matches Some(tb) ==>
        forall|i: int| 0 <= i < tb.members@.len() ==> trend_text_free(#[trigger] tb.members@[i]))
}

proof fn lemma_dh_free(m: Map<Seq<char>, Seq<char>>, d: DepartmentHeadDashboard)
    requires
        entries_free(m),
        dh_text_free(d),
    ensures
        entries_free(dh_entries(m, d)),
{
    lemma_inserts_free();
    reveal_strlit("department_head.utilization.average_utilization_pct");
    lemma_plain_is_free("department_head.utilization.average_utilization_pct"@);
    reveal_strlit("department_head.utilization.overallocated_count");
    lemma_plain_is_free("department_head.utilization.overallocated_count"@);
    reveal_strlit("department_head.overallocations.overallocated_count");
    lemma_plain_is_free("department_head.overallocations.overallocated_count"@);
    reveal_strlit("department_head.budget.utilization_percentage");
    lemma_plain_is_free("department_head.budget.utilization_percentage"@);
    reveal_strlit("department_head.budget.remaining_idr");
    lemma_plain_is_free("department_head.budget.remaining_idr"@);
    reveal_strlit("department_head.budget.total_committed_idr");
    lemma_plain_is_free("department_head.budget.total_committed_idr"@);
    reveal_strlit("department_head.budget.total_budget_idr");
    lemma_plain_is_free("department_head.budget.total_budget_idr"@);
    reveal_strlit("department_head.budget.budget_health");
    lemma_plain_is_free("department_head.budget.budget_health"@);
    reveal_strlit("department_head.top_at_risk.");
    lemma_plain_is_free("department_head.top_at_risk."@);
    reveal_strlit("department_head.top_at_risk.name.");
    lemma_plain_is_free("department_head.top_at_risk.name."@);
    reveal_strlit("department_head.overallocations.member.");
    lemma_plain_is_free("department_head.overallocations.member."@);
    reveal_strlit("department_head.overallocations.member.name.");
    lemma_plain_is_free("department_head.overallocations.member.name."@);
    reveal_strlit("department_head.upcoming_assignments.");
    lemma_plain_is_free("department_head.upcoming_assignments."@);
    reveal_strlit("department_head.upcoming_assignments.name.");
    lemma_plain_is_free("department_head.upcoming_assignments.name."@);
    reveal_strlit("department_head.team.member_count");
    lemma_plain_is_free("department_head.team.member_count"@);
    reveal_strlit("department_head.team.underutilized_count");
    lemma_plain_is_free("department_head.team.underutilized_count"@);
    reveal_strlit("department_head.team.avg_available_capacity_pct");
    lemma_anchored_is_free("department_head.team.avg_available_capacity_pct"@);
    reveal_strlit("department_head.team.");
    lemma_plain_is_free("department_head.team."@);
    reveal_strlit("department_head.team.name.");
    lemma_plain_is_free("department_head.team.name."@);
    reveal_strlit(".resource_name");
    lemma_plain_is_free(".resource_name"@);
    reveal_strlit(".role");
    lemma_plain_is_free(".role"@);
    reveal_strlit(".current_utilization_pct");
    lemma_plain_is_free(".current_utilization_pct"@);
    reveal_strlit(".available_capacity_pct");
    lemma_anchored_is_free(".available_capacity_pct"@);
    reveal_strlit(".is_underutilized");
    lemma_plain_is_free(".is_underutilized"@);
    reveal_strlit(".is_overallocated");
    lemma_plain_is_free(".is_overallocated"@);
    reveal_strlit(".ctc_status");
    lemma_plain_is_free(".ctc_status"@);
    reveal_strlit(".current_projects");
    lemma_plain_is_free(".current_projects"@);
    reveal_strlit("department_head.trend.");
    lemma_plain_is_free("department_head.trend."@);
    reveal_strlit("department_head.trend.name.");
    lemma_plain_is_free("department_head.trend.name."@);
    reveal_strlit(".");
    lemma_plain_is_free("."@);
    reveal_strlit("department_head.budget.spent_actual_idr");
    lemma_plain_is_free("department_head.budget.spent_actual_idr"@);
    reveal_strlit("department_head.budget.alert_threshold_pct");
    lemma_plain_is_free("department_head.budget.alert_threshold_pct"@);
    lemma_int_free(d.utilization.overallocated_count as int);
    lemma_int_free(d.overallocations.overallocated_count as int);
    lemma_int_free(d.team_members@.len() as int);
    lemma_int_free(underutilized_count(d.team_members@) as int);
    let m1 = m.insert("department_head.utilization.average_utilization_pct"@, d.utilization.average_utilization_pct_text@)
        .insert("department_head.utilization.overallocated_count"@, int_text(d.utilization.overallocated_count as int))
        .insert("department_head.overallocations.overallocated_count"@, int_text(d.overallocations.overallocated_count as int));
    assert(entries_free(m1));
    let m2 = crate::dashboard::dh_budget_summary(m1, d.budget);
    match d.budget {
        Some(b) => {
            lemma_int_free(b.remaining_idr as int);
            lemma_int_free(b.total_committed_idr as int);
            lemma_int_free(b.total_budget_idr as int);
            lemma_int_free(b.spent_actual_idr as int);
            lemma_int_free(b.alert_threshold_pct as int);
        },
        None => {},
    }
    assert(entries_free(m2));
    assert forall|mm: Map<Seq<char>, Seq<char>>, r: UtilizationAtRisk|
        entries_free(mm) && (|x: UtilizationAtRisk| at_risk_text_free(x))(r) implies #[trigger] entries_free(dh_top_at_risk_stepper()(mm, r)) by {
        lemma_id_or_name_free("department_head.top_at_risk."@, r.resource_id, "department_head.top_at_risk.name."@, r.resource_name@);
        lemma_bar_join(r.resource_name@, r.current_allocation_pct_text@);
    }
    lemma_fold_free(m2, d.utilization.top_at_risk@, dh_top_at_risk_stepper(), |x: UtilizationAtRisk| at_risk_text_free(x));
    let m3 = fold_rows(m2, d.utilization.top_at_risk@, dh_top_at_risk_stepper());
    assert forall|mm: Map<Seq<char>, Seq<char>>, r: UtilizationAtRisk|
        entries_free(mm) && (|x: UtilizationAtRisk| at_risk_text_free(x))(r) implies #[trigger] entries_free(dh_overalloc_stepper()(mm, r)) by {
        lemma_id_or_name_free("department_head.overallocations.member."@, r.resource_id, "department_head.overallocations.member.name."@, r.resource_name@);
        lemma_bar_join(r.resource_name@, r.current_allocation_pct_text@);
    }
    lemma_fold_free(m3, d.overallocations.members@, dh_overalloc_stepper(), |x: UtilizationAtRisk| at_risk_text_free(x));
    let m4 = fold_rows(m3, d.overallocations.members@, dh_overalloc_stepper());
    assert forall|mm: Map<Seq<char>, Seq<char>>, a: UpcomingAssignment|
        entries_free(mm) && (|x: UpcomingAssignment| assignment_text_free(x))(a) implies #[trigger] entries_free(dh_upcoming_stepper()(mm, a)) by {
        let rn = a.resource_name@;
        let pn = a.project_name@;
        lemma_bar_join(rn, pn);
        lemma_bar_join(rn + "|"@ + pn, a.start_date@);
        lemma_bar_join(rn + "|"@ + pn + "|"@ + a.start_date@, a.end_date@);
        lemma_bar_join(rn + "|"@ + pn, a.allocation_percentage_text@);
        lemma_bar_join(rn + "|"@ + pn + "|"@ + a.allocation_percentage_text@, a.start_date@);
        lemma_bar_join(rn + "|"@ + pn + "|"@ + a.allocation_percentage_text@ + "|"@ + a.start_date@, a.end_date@);
        lemma_id_or_name_free("department_head.upcoming_assignments."@, a.allocation_id, "department_head.upcoming_assignments.name."@, assignment_name_part(a));
    }
    lemma_fold_free(m4, d.upcoming_assignments@, dh_upcoming_stepper(), |x: UpcomingAssignment| assignment_text_free(x));
    let m5 = fold_rows(m4, d.upcoming_assignments@, dh_upcoming_stepper());
    let m6 = m5.insert("department_head.team.member_count"@, int_text(d.team_members@.len() as int))
        .insert("department_head.team.underutilized_count"@, int_text(underutilized_count(d.team_members@) as int))
        .insert("department_head.team.avg_available_capacity_pct"@, d.avg_available_capacity_pct_text@);
    assert(entries_free(m6));
    assert forall|mm: Map<Seq<char>, Seq<char>>, t: TeamUtilizationMember|
        entries_free(mm) && (|x: TeamUtilizationMember| member_text_free(x))(t) implies #[trigger] entries_free(dh_member_stepper()(mm, t)) by {
        let k = team_member_key_spec(t);
        lemma_id_or_name_free("department_head.team."@, t.resource_id, "department_head.team.name."@, t.resource_name@);
        lemma_join_free(k, ".resource_name"@);
        lemma_join_free(k, ".role"@);
        lemma_join_free(k, ".current_utilization_pct"@);
        lemma_join_free(k, ".available_capacity_pct"@);
        lemma_join_free(k, ".is_underutilized"@);
        lemma_join_free(k, ".is_overallocated"@);
        lemma_join_free(k, ".ctc_status"@);
        lemma_join_free(k, ".current_projects"@);
        lemma_bool_free(shown_underutilized(t));
        lemma_bool_free(t.is_overallocated);
    }
    lemma_fold_free(m6, d.team_members@, dh_member_stepper(), |x: TeamUtilizationMember| member_text_free(x));
    let m7 = fold_rows(m6, d.team_members@, dh_member_stepper());
    let m8 = match d.utilization_trends {
        Some(tb) => fold_rows(m7, tb.members@, dh_trend_member_stepper()),
        None => m7,
    };
    match d.utilization_trends {
        Some(tb) => {
            assert forall|mm: Map<Seq<char>, Seq<char>>, t: TeamUtilizationTrend|
                entries_free(mm) && (|x: TeamUtilizationTrend| trend_text_free(x))(t) implies #[trigger] entries_free(dh_trend_member_stepper()(mm, t)) by {
                let k = id_or_name("department_head.trend."@, t.resource_id, "department_head.trend.name."@, t.resource_name@);
                lemma_id_or_name_free("department_head.trend."@, t.resource_id, "department_head.trend.name."@, t.resource_name@);
                lemma_join_free(k, "."@);
                assert forall|nn: Map<Seq<char>, Seq<char>>, p: TeamUtilizationTrendPeriod|
                    entries_free(nn) && (|x: TeamUtilizationTrendPeriod| period_text_free(x))(p) implies #[trigger] entries_free(dh_period_stepper(t)(nn, p)) by {
                    lemma_join_free(k + "."@, p.period@);
                    assert(trend_period_key_spec(t, p.period@) == k + "."@ + p.period@);
                }
                lemma_fold_free(mm, t.periods@, dh_period_stepper(t), |x: TeamUtilizationTrendPeriod| period_text_free(x));
            }
            lemma_fold_free(m7, tb.members@, dh_trend_member_stepper(), |x: TeamUtilizationTrend| trend_text_free(x));
        },
        None => {},
    }
    assert(entries_free(m8));
}

/// The shown texts of a project card.
pub open spec fn card_text_free(c: ProjectHealthCard) -> bool {
    &&& free_of_sensitive_words(c.project_name@)
    &&& free_of_sensitive_words(c.status@)
    &&& free_of_sensitive_words(c.end_date@)
    &&& free_of_sensitive_words(c.budget_status@)
    &&& free_of_sensitive_words(c.margin_pct_text@)
    &&& free_of_sensitive_words(c.budget_utilization_pct_text@)
    &&& free_of_sensitive_words(c.forecast_margin_pct_text@)
    &&& free_of_sensitive_words(c.forecast_variance_from_target_pct_text@)
    &&& free_of_sensitive_words(c.health_status@)
    &&& free_of_sensitive_words(c.target_margin_pct_text@)
    &&& free_of_sensitive_words(c.margin_alert_threshold_pct_text@)
    &&& (c.warning matches Some(t) ==> free_of_sensitive_words(t@))
    &&& (c.margin_alert matches Some(t) ==> free_of_sensitive_words(t@))
}

/// The shown texts of a margin alert.
pub open spec fn alert_text_free(a: MarginAlert) -> bool {
    &&& free_of_sensitive_words(a.project_name@)
    &&& free_of_sensitive_words(a.margin_pct_text@)
    &&& free_of_sensitive_words(a.message@)
}

/// The shown texts of the project-manager section hold no sensitive word.
pub open spec fn pm_text_free(p: ProjectManagerDashboard) -> bool {
    &&& forall|i: int| 0 <= i < p.active_projects@.len() ==> card_text_free(#[trigger] p.active_projects@[i])
    &&& forall|i: int| 0 <= i < p.margin_alerts@.len() ==> alert_text_free(#[trigger] p.margin_alerts@[i])
}

/// A project's key part after a prefix ending in a separator.
proof fn lemma_project_key_free(prefix: Seq<char>, id: Option<u128>, name: Seq<char>)
    requires
        free_of_sensitive_words(prefix),
        prefix.len() > 0 && is_separator(prefix.last()),
        free_of_sensitive_words(name),
    ensures
        free_of_sensitive_words(prefix + project_id_key(id, name)),
{
    reveal_strlit("name.");
    lemma_plain_is_free("name."@);
    match id {
        Some(u) => {
            lemma_uuid_plain(u);
            lemma_plain_is_free(uuid_hyphenated(u));
            assert(project_id_key(id, name) =~= uuid_hyphenated(u));
            lemma_join_free(prefix, uuid_hyphenated(u));
        },
        None => {
            lemma_join_free("name."@, name);
            lemma_join_free(prefix, "name."@ + name);
        },
    }
}

proof fn lemma_pm_free(m: Map<Seq<char>, Seq<char>>, p: ProjectManagerDashboard)
    requires
        entries_free(m),
        pm_text_free(p),
    ensures
        entries_free(pm_entries(m, p)),
{
    lemma_inserts_free();
    reveal_strlit("project_manager.active_projects.count");
    lemma_plain_is_free("project_manager.active_projects.count"@);
    reveal_strlit("project_manager.margin_alerts.count");
    lemma_plain_is_free("project_manager.margin_alerts.count"@);
    reveal_strlit("project_manager.project.");
    lemma_plain_is_free("project_manager.project."@);
    reveal_strlit("project_manager.margin_alert.");
    lemma_plain_is_free("project_manager.margin_alert."@);
    reveal_strlit(".margin_pct");
    lemma_plain_is_free(".margin_pct"@);
    reveal_strlit(".project_name");
    lemma_plain_is_free(".project_name"@);
    reveal_strlit(".status");
    lemma_plain_is_free(".status"@);
    reveal_strlit(".end_date");
    lemma_plain_is_free(".end_date"@);
    reveal_strlit(".total_budget_idr");
    lemma_plain_is_free(".total_budget_idr"@);
    reveal_strlit(".budget_spent_idr");
    lemma_plain_is_free(".budget_spent_idr"@);
    reveal_strlit(".gross_profit_idr");
    lemma_plain_is_free(".gross_profit_idr"@);
    reveal_strlit(".budget_status");
    lemma_plain_is_free(".budget_status"@);
    reveal_strlit(".budget_remaining_idr");
    lemma_plain_is_free(".budget_remaining_idr"@);
    reveal_strlit(".total_revenue_idr");
    lemma_plain_is_free(".total_revenue_idr"@);
    reveal_strlit(".total_cost_idr");
    lemma_plain_is_free(".total_cost_idr"@);
    reveal_strlit(".warning");
    lemma_plain_is_free(".warning"@);
    reveal_strlit(".margin_alert");
    lemma_plain_is_free(".margin_alert"@);
    reveal_strlit(".budget_utilization_pct");
    lemma_plain_is_free(".budget_utilization_pct"@);
    reveal_strlit(".is_over_budget");
    lemma_plain_is_free(".is_over_budget"@);
    reveal_strlit(".budget_overrun_idr");
    lemma_plain_is_free(".budget_overrun_idr"@);
    reveal_strlit(".forecast_margin_pct");
    lemma_plain_is_free(".forecast_margin_pct"@);
    reveal_strlit(".forecast_variance_from_target_pct");
    lemma_plain_is_free(".forecast_variance_from_target_pct"@);
    reveal_strlit(".projected_total_cost_idr");
    lemma_plain_is_free(".projected_total_cost_idr"@);
    reveal_strlit(".forecast_unavailable");
    lemma_plain_is_free(".forecast_unavailable"@);
    reveal_strlit(".forecast_has_revenue_signal");
    lemma_plain_is_free(".forecast_has_revenue_signal"@);
    reveal_strlit(".health_status");
    lemma_plain_is_free(".health_status"@);
    reveal_strlit(".target_margin_pct");
    lemma_plain_is_free(".target_margin_pct"@);
    reveal_strlit(".margin_alert_threshold_pct");
    lemma_plain_is_free(".margin_alert_threshold_pct"@);
    lemma_int_free(p.active_projects@.len() as int);
    lemma_int_free(p.margin_alerts@.len() as int);
    let m1 = m.insert("project_manager.active_projects.count"@, int_text(p.active_projects@.len() as int))
        .insert("project_manager.margin_alerts.count"@, int_text(p.margin_alerts@.len() as int));
    assert(entries_free(m1));
    assert forall|mm: Map<Seq<char>, Seq<char>>, c: ProjectHealthCard|
        entries_free(mm) && (|x: ProjectHealthCard| card_text_free(x))(c) implies #[trigger] entries_free(pm_project_stepper()(mm, c)) by {
        let k = "project_manager.project."@ + project_id_key(c.project_id, c.project_name@);
        lemma_project_key_free("project_manager.project."@, c.project_id, c.project_name@);
        lemma_join_free(k, ".margin_pct"@);
        lemma_join_free(k, ".project_name"@);
        lemma_join_free(k, ".status"@);
        lemma_join_free(k, ".end_date"@);
        lemma_join_free(k, ".total_budget_idr"@);
        lemma_join_free(k, ".budget_spent_idr"@);
        lemma_join_free(k, ".gross_profit_idr"@);
        lemma_join_free(k, ".budget_status"@);
        lemma_join_free(k, ".budget_remaining_idr"@);
        lemma_join_free(k, ".total_revenue_idr"@);
        lemma_join_free(k, ".total_cost_idr"@);
        lemma_join_free(k, ".warning"@);
        lemma_join_free(k, ".margin_alert"@);
        lemma_join_free(k, ".budget_utilization_pct"@);
        lemma_join_free(k, ".is_over_budget"@);
        lemma_join_free(k, ".budget_overrun_idr"@);
        lemma_join_free(k, ".forecast_margin_pct"@);
        lemma_join_free(k, ".forecast_variance_from_target_pct"@);
        lemma_join_free(k, ".projected_total_cost_idr"@);
        lemma_join_free(k, ".forecast_unavailable"@);
        lemma_join_free(k, ".forecast_has_revenue_signal"@);
        lemma_join_free(k, ".health_status"@);
        lemma_join_free(k, ".target_margin_pct"@);
        lemma_join_free(k, ".margin_alert_threshold_pct"@);
        lemma_int_free(c.total_budget_idr as int);
        lemma_int_free(c.budget_spent_idr as int);
        lemma_int_free(c.gross_profit_idr as int);
        lemma_int_free(c.budget_remaining_idr as int);
        lemma_int_free(c.total_revenue_idr as int);
        lemma_int_free(c.total_cost_idr as int);
        lemma_int_free(c.budget_overrun_idr as int);
        lemma_int_free(c.projected_total_cost_idr as int);
        lemma_opt_free(c.warning);
        lemma_opt_free(c.margin_alert);
        lemma_bool_free(c.is_over_budget);
        lemma_bool_free(c.forecast_unavailable);
        lemma_bool_free(c.forecast_has_revenue_signal);
    }
    lemma_fold_free(m1, p.active_projects@, pm_project_stepper(), |x: ProjectHealthCard| card_text_free(x));
    let m2 = fold_rows(m1, p.active_projects@, pm_project_stepper());
    assert forall|mm: Map<Seq<char>, Seq<char>>, a: MarginAlert|
        entries_free(mm) && (|x: MarginAlert| alert_text_free(x))(a) implies #[trigger] entries_free(pm_alert_stepper()(mm, a)) by {
        lemma_project_key_free("project_manager.margin_alert."@, a.project_id, a.project_name@);
        lemma_bar_join(a.margin_pct_text@, a.message@);
    }
    lemma_fold_free(m2, p.margin_alerts@, pm_alert_stepper(), |x: MarginAlert| alert_text_free(x));
}

/// The shown texts of an audit alert.
pub open spec fn audit_entry_text_free(e: AuditAlertEntry) -> bool {
    &&& free_of_sensitive_words(e.action@)
    &&& free_of_sensitive_words(e.entity_type@)
    &&& free_of_sensitive_words(e.created_at@)
}

/// The shown texts of a pending export request.
pub open spec fn export_text_free(q: PendingExportRequest) -> bool {
    &&& free_of_sensitive_words(q.status@)
    &&& free_of_sensitive_words(q.created_at@)
    &&& (q.report_type matches Some(t) ==> free_of_sensitive_words(t@))
}

/// The shown texts of the finance section hold no sensitive word.
pub open spec fn finance_text_free(f: FinanceDashboard) -> bool {
    &&& free_of_sensitive_words(f.ctc_validation.status@)
    &&& (f.ctc_validation.match_rate_pct_text matches Some(t) ==> free_of_sensitive_words(t@))
    &&& forall|i: int| 0 <= i < f.audit_alerts.recent@.len() ==> audit_entry_text_free(#[trigger] f.audit_alerts.recent@[i])
    &&& forall|i: int| 0 <= i < f.export_requests.latest_pending@.len() ==> export_text_free(#[trigger] f.export_requests.latest_pending@[i])
}

proof fn lemma_opt_count_free(o: Option<i64>)
    ensures
        free_of_sensitive_words(opt_count_text(o)),
{
    reveal_strlit("none");
    lemma_plain_is_free("none"@);
    match o {
        Some(v) => lemma_int_free(v as int),
        None => {},
    }
}

proof fn lemma_finance_free(m: Map<Seq<char>, Seq<char>>, f: FinanceDashboard)
    requires
        entries_free(m),
        finance_text_free(f),
    ensures
        entries_free(finance_entries(m, f)),
{
    lemma_inserts_free();
    reveal_strlit("finance.cash_position.ending_cumulative_position_idr");
    lemma_plain_is_free("finance.cash_position.ending_cumulative_position_idr"@);
    reveal_strlit("finance.cash_position.net_cash_flow_idr");
    lemma_plain_is_free("finance.cash_position.net_cash_flow_idr"@);
    reveal_strlit("finance.cash_position.total_cash_in_idr");
    lemma_plain_is_free("finance.cash_position.total_cash_in_idr"@);
    reveal_strlit("finance.cash_position.total_cash_out_idr");
    lemma_plain_is_free("finance.cash_position.total_cash_out_idr"@);
    reveal_strlit("finance.ctc_validation.status");
    lemma_plain_is_free("finance.ctc_validation.status"@);
    reveal_strlit("finance.ctc_validation.match_rate_pct");
    lemma_plain_is_free("finance.ctc_validation.match_rate_pct"@);
    reveal_strlit("finance.ctc_validation.total_compared");
    lemma_plain_is_free("finance.ctc_validation.total_compared"@);
    reveal_strlit("finance.ctc_validation.total_matches");
    lemma_plain_is_free("finance.ctc_validation.total_matches"@);
    reveal_strlit("finance.ctc_validation.total_discrepancies");
    lemma_plain_is_free("finance.ctc_validation.total_discrepancies"@);
    reveal_strlit("finance.audit_alerts.total");
    lemma_plain_is_free("finance.audit_alerts.total"@);
    reveal_strlit("finance.audit_alerts.access_denied_count");
    lemma_plain_is_free("finance.audit_alerts.access_denied_count"@);
    reveal_strlit("finance.audit_alerts.login_failed_count");
    lemma_plain_is_free("finance.audit_alerts.login_failed_count"@);
    reveal_strlit("finance.audit_alerts.login_blocked_count");
    lemma_plain_is_free("finance.audit_alerts.login_blocked_count"@);
    reveal_strlit("finance.audit_alerts.chain_verification_failure_count");
    lemma_plain_is_free("finance.audit_alerts.chain_verification_failure_count"@);
    reveal_strlit("finance.export_requests.pending_count");
    lemma_anchored_is_free("finance.export_requests.pending_count"@);
    reveal_strlit("finance.audit_alerts.recent.");
    lemma_plain_is_free("finance.audit_alerts.recent."@);
    reveal_strlit("finance.export_requests.latest.");
    lemma_anchored_is_free("finance.export_requests.latest."@);
    reveal_strlit("none");
    lemma_plain_is_free("none"@);
    lemma_int_free(f.cash_position.ending_cumulative_position_idr as int);
    lemma_int_free(f.cash_position.net_cash_flow_idr as int);
    lemma_int_free(f.cash_position.total_cash_in_idr as int);
    lemma_int_free(f.cash_position.total_cash_out_idr as int);
    lemma_opt_count_free(f.ctc_validation.total_compared);
    lemma_opt_count_free(f.ctc_validation.total_matches);
    lemma_opt_count_free(f.ctc_validation.total_discrepancies);
    lemma_int_free(audit_alert_total(f.audit_alerts));
    lemma_int_free(f.audit_alerts.access_denied_count as int);
    lemma_int_free(f.audit_alerts.login_failed_count as int);
    lemma_int_free(f.audit_alerts.login_blocked_count as int);
    lemma_int_free(f.audit_alerts.chain_verification_failure_count as int);
    lemma_int_free(f.export_requests.pending_count as int);
    let rate = match f.ctc_validation.match_rate_pct_text {
        Some(t) => t@,
        None => "none"@,
    };
    assert(free_of_sensitive_words(rate));
    let m1 = m.insert("finance.cash_position.ending_cumulative_position_idr"@, int_text(f.cash_position.ending_cumulative_position_idr as int))
        .insert("finance.cash_position.net_cash_flow_idr"@, int_text(f.cash_position.net_cash_flow_idr as int))
        .insert("finance.cash_position.total_cash_in_idr"@, int_text(f.cash_position.total_cash_in_idr as int))
        .insert("finance.cash_position.total_cash_out_idr"@, int_text(f.cash_position.total_cash_out_idr as int))
        .insert("finance.ctc_validation.status"@, f.ctc_validation.status@)
        .insert("finance.ctc_validation.match_rate_pct"@, rate)
        .insert("finance.ctc_validation.total_compared"@, opt_count_text(f.ctc_validation.total_compared))
        .insert("finance.ctc_validation.total_matches"@, opt_count_text(f.ctc_validation.total_matches))
        .insert("finance.ctc_validation.total_discrepancies"@, opt_count_text(f.ctc_validation.total_discrepancies))
        .insert("finance.audit_alerts.total"@, int_text(audit_alert_total(f.audit_alerts)))
        .insert("finance.audit_alerts.access_denied_count"@, int_text(f.audit_alerts.access_denied_count as int))
        .insert("finance.audit_alerts.login_failed_count"@, int_text(f.audit_alerts.login_failed_count as int))
        .insert("finance.audit_alerts.login_blocked_count"@, int_text(f.audit_alerts.login_blocked_count as int))
        .insert("finance.audit_alerts.chain_verification_failure_count"@, int_text(f.audit_alerts.chain_verification_failure_count as int))
        .insert("finance.export_requests.pending_count"@, int_text(f.export_requests.pending_count as int));
    assert(entries_free(m1));
    assert forall|mm: Map<Seq<char>, Seq<char>>, e: AuditAlertEntry|
        entries_free(mm) && (|x: AuditAlertEntry| audit_entry_text_free(x))(e) implies #[trigger] entries_free(fin_recent_stepper()(mm, e)) by {
        lemma_pipes_free(e.action@, e.entity_type@, e.created_at@);
        let v = pipe3(e.action@, e.entity_type@, e.created_at@);
        lemma_id_or_name_free("finance.audit_alerts.recent."@, e.id, "finance.audit_alerts.recent."@, v);
    }
    lemma_fold_free(m1, f.audit_alerts.recent@, fin_recent_stepper(), |x: AuditAlertEntry| audit_entry_text_free(x));
    let m2 = fold_rows(m1, f.audit_alerts.recent@, fin_recent_stepper());
    assert forall|mm: Map<Seq<char>, Seq<char>>, q: PendingExportRequest|
        entries_free(mm) && (|x: PendingExportRequest| export_text_free(x))(q) implies #[trigger] entries_free(fin_pending_stepper()(mm, q)) by {
        lemma_opt_free(q.report_type);
        lemma_pipes_free(q.status@, q.created_at@, q.created_at@);
        lemma_pipes_free(q.status@, opt_text(q.report_type), q.created_at@);
        lemma_id_or_name_free("finance.export_requests.latest."@, q.id, "finance.export_requests.latest."@, pipe2(q.status@, q.created_at@));
    }
    lemma_fold_free(m2, f.export_requests.latest_pending@, fin_pending_stepper(), |x: PendingExportRequest| export_text_free(x));
}

proof fn lemma_admin_free(m: Map<Seq<char>, Seq<char>>, a: AdminDashboard)
    requires
        entries_free(m),
    ensures
        entries_free(admin_entries(m, a)),
{
    lemma_inserts_free();
    reveal_strlit("admin.total_users");
    lemma_plain_is_free("admin.total_users"@);
    reveal_strlit("admin.total_departments");
    lemma_plain_is_free("admin.total_departments"@);
    reveal_strlit("admin.total_active_projects");
    lemma_plain_is_free("admin.total_active_projects"@);
    reveal_strlit("admin.total_active_ctc_records");
    lemma_plain_is_free("admin.total_active_ctc_records"@);
    reveal_strlit("admin.pending_export_requests");
    lemma_anchored_is_free("admin.pending_export_requests"@);
    reveal_strlit("admin.access_denied_24h");
    lemma_plain_is_free("admin.access_denied_24h"@);
    lemma_int_free(a.total_users as int);
    lemma_int_free(a.total_departments as int);
    lemma_int_free(a.total_active_projects as int);
    lemma_int_free(a.total_active_ctc_records as int);
    lemma_int_free(a.pending_export_requests as int);
    lemma_int_free(a.access_denied_24h as int);
}

/// Every text a snapshot shows is free of sensitive words.
pub open spec fn dashboard_text_free(d: RoleDashboardResponse) -> bool {
    &&& (d.hr matches Some(h) ==> hr_text_free(h))
    &&& (d.department_head matches Some(x) ==> dh_text_free(x))
    &&& (d.project_manager matches Some(p) ==> pm_text_free(p))
    &&& (d.finance matches Some(f) ==> finance_text_free(f))
}

/// The value map adds no CTC ciphertext, key metadata or salary-component
/// wording of its own: when no text the snapshot shows holds one of those
/// words, no key and no value of the map holds one either (the words cannot
/// arise across the joins, which always fall on a `.` or a `|`).
pub proof fn law_value_map_has_no_sensitive_words(d: RoleDashboardResponse)
    requires
        dashboard_text_free(d),
    ensures
        forall|k: Seq<char>| #[trigger] dashboard_values(d).dom().contains(k) ==>
            free_of_sensitive_words(k) && free_of_sensitive_words(dashboard_values(d)[k]),
{
    let m0 = Map::<Seq<char>, Seq<char>>::empty();
    assert(entries_free(m0));
    let m1 = match d.hr { Some(h) => hr_entries(m0, h), None => m0 };
    match d.hr { Some(h) => lemma_hr_free(m0, h), None => {} }
    let m2 = match d.department_head { Some(x) => dh_entries(m1, x), None => m1 };
    match d.department_head { Some(x) => lemma_dh_free(m1, x), None => {} }
    let m3 = match d.project_manager { Some(p) => pm_entries(m2, p), None => m2 };
    match d.project_manager { Some(p) => lemma_pm_free(m2, p), None => {} }
    let m4 = match d.finance { Some(f) => finance_entries(m3, f), None => m3 };
    match d.finance { Some(f) => lemma_finance_free(m3, f), None => {} }
    match d.admin { Some(a) => lemma_admin_free(m4, a), None => {} }
    assert(entries_free(dashboard_values(d)));
}

} // verus!
