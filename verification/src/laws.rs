use vstd::prelude::*;
use crate::value_map::changed_keys_spec;
use crate::dashboard::{RoleDashboardResponse, dashboard_values};
use crate::poller::next_id;
use crate::numbers::{group_thousands, decimal_digits, is_digit};
use crate::json::{Json, clip, render};
use crate::display::json_preview_text;
use crate::ids::collect_sample_ids;
use crate::audit::{ReportType, report_token, report_from_token, validate_filters_spec, interactive_range_spec, ReportFilters};
use crate::forms::{category_for_type_spec, whole_number_spec};
use crate::labels::category_options_spec;
use crate::dates::{TrendRangePreset, preset_days};
use crate::allocations::{Allocation, Holiday, resource_entries, allocation_bars, allocation_bars_upto, holiday_item,
    holiday_items_upto, timeline_items_spec, holiday_dates, project_slot};
use crate::ids::{uuid_hyphenated, lemma_uuid_text_shape, lemma_uuid_text_injective, uuid_parse_spec};
use crate::audit::filter_dates_spec;
use crate::forms::{CtcFormInput, ctc_form_spec, parse_i32_spec};
use crate::extract::{TrendCounts, trend_counts_match, member_i64, member_has_i64, DepartmentCounts, department_counts_match};
use crate::validation::{ValidationFilters, validate_report_filters_spec};
use crate::text::seq_lt;
use crate::numbers::{int_text, lemma_decimal_digits_len, lemma_decimal_digits_injective};

verus! {

/// Comparing a snapshot's values with themselves highlights nothing.
pub proof fn law_identical_snapshots_change_nothing(m: Map<Seq<char>, Seq<char>>)
    ensures
        changed_keys_spec(m, m) == Set::<Seq<char>>::empty(),
{
    assert(changed_keys_spec(m, m) =~= Set::<Seq<char>>::empty());
}

/// Only keys of the new snapshot are highlighted; a key that disappeared
/// (a removed row) never is.
pub proof fn law_changed_keys_are_current(prev: Map<Seq<char>, Seq<char>>, next: Map<Seq<char>, Seq<char>>, k: Seq<char>)
    ensures
        changed_keys_spec(prev, next).contains(k) ==> next.contains_key(k),
        prev.contains_key(k) && !next.contains_key(k) ==> !changed_keys_spec(prev, next).contains(k),
{
}

/// A key is highlighted exactly when it is new or its shown value changed.
pub proof fn law_changed_iff_value_differs(prev: Map<Seq<char>, Seq<char>>, next: Map<Seq<char>, Seq<char>>, k: Seq<char>)
    requires
        next.contains_key(k),
    ensures
        changed_keys_spec(prev, next).contains(k) <==> (!prev.contains_key(k) || prev[k] != next[k]),
{
}

/// Two snapshots that differ only in their generation time (and the role
/// label) have the same value map, so a poll that only refreshes the
/// timestamp highlights nothing.
pub proof fn law_generated_at_is_not_a_value(d1: RoleDashboardResponse, d2: RoleDashboardResponse)
    requires
        d1.hr == d2.hr,
        d1.department_head == d2.department_head,
        d1.project_manager == d2.project_manager,
        d1.finance == d2.finance,
        d1.admin == d2.admin,
    ensures
        dashboard_values(d1) == dashboard_values(d2),
        changed_keys_spec(dashboard_values(d1), dashboard_values(d2)) == Set::<Seq<char>>::empty(),
{
    law_identical_snapshots_change_nothing(dashboard_values(d1));
}

/// Dropping the requests in flight (sign-out, leaving the page) gives a
/// request id that differs from the last one handed out, so any answer still
/// on its way is ignored.
pub proof fn law_invalidation_outdates_inflight(latest: u64)
    ensures
        next_id(latest) != latest,
{
}

/// Strips the group separators.
pub open spec fn without_dots(s: Seq<char>) -> Seq<char> {
    s.filter(|c: char| c != '.')
}

/// Grouping digits only inserts separators: dropping the dots gives the
/// digits back, so a rupiah amount reads as its decimal value.
pub proof fn law_grouping_keeps_digits(d: Seq<char>)
    requires
        forall|k: int| 0 <= k < d.len() ==> is_digit(#[trigger] d[k]),
    ensures
        without_dots(group_thousands(d)) == d,
    decreases d.len(),
{
    reveal_with_fuel(Seq::filter, 1);
    if d.len() <= 3 {
        lemma_filter_no_dots(d);
    } else {
        let head = d.take(d.len() - 3);
        let tail = d.skip(d.len() - 3);
        assert forall|k: int| 0 <= k < head.len() implies is_digit(#[trigger] head[k]) by {
            assert(head[k] == d[k]);
        }
        assert forall|k: int| 0 <= k < tail.len() implies is_digit(#[trigger] tail[k]) by {
            assert(tail[k] == d[k + d.len() - 3]);
        }
        law_grouping_keeps_digits(head);
        lemma_filter_no_dots(tail);
        let g = group_thousands(head);
        assert(group_thousands(d) == g + seq!['.'] + tail);
        Seq::filter_distributes_over_add(g + seq!['.'], tail, |c: char| c != '.');
        Seq::filter_distributes_over_add(g, seq!['.'], |c: char| c != '.');
        assert(seq!['.'].filter(|c: char| c != '.') =~= Seq::<char>::empty()) by {
            reveal_with_fuel(Seq::filter, 2);
        }
        assert(d =~= head + tail);
    }
}

proof fn lemma_filter_no_dots(d: Seq<char>)
    requires
        forall|k: int| 0 <= k < d.len() ==> is_digit(#[trigger] d[k]),
    ensures
        without_dots(d) == d,
    decreases d.len(),
{
    reveal_with_fuel(Seq::filter, 1);
    if d.len() > 0 {
        let g = d.drop_last();
        assert forall|k: int| 0 <= k < g.len() implies is_digit(#[trigger] g[k]) by {
            assert(g[k] == d[k]);
        }
        lemma_filter_no_dots(g);
        assert(is_digit(d.last()));
        assert(d =~= g.push(d.last()));
    }
}

/// Decimal digits are digits.
pub proof fn law_decimal_digits_are_digits(n: nat)
    ensures
        forall|k: int| 0 <= k < decimal_digits(n).len() ==> is_digit(#[trigger] decimal_digits(n)[k]),
    decreases n,
{
    if n >= 10 {
        law_decimal_digits_are_digits(n / 10);
        let r = decimal_digits(n / 10);
        assert forall|k: int| 0 <= k < decimal_digits(n).len() implies is_digit(#[trigger] decimal_digits(n)[k]) by {
            if k < r.len() {
                assert(decimal_digits(n)[k] == r[k]);
            }
        }
    }
}

/// A JSON preview never runs past 240 characters plus the ellipsis, and what
/// it shows is the start of the full rendering.
pub proof fn law_json_preview_is_bounded_prefix(v: Json)
    ensures
        json_preview_text(v).len() <= 241,
        clip(render(v, 0), 240) =~= render(v, 0).take(clip(render(v, 0), 240).len() as int),
{
    reveal_strlit("…");
}

/// Appending a preview at any depth to a buffer that is within the limit
/// keeps what the buffer held in front and never passes the limit.
pub proof fn law_json_preview_append_keeps_prefix(old: Seq<char>, v: Json, depth: int, limit: int)
    requires
        old.len() <= limit,
    ensures
        clip(old + render(v, depth), limit).len() <= limit,
        clip(old + render(v, depth), limit).subrange(0, old.len() as int) =~= old,
{
}

/// A validation sample never names more than 200 ids, and never one twice.
pub proof fn law_sample_ids_distinct_and_bounded(toks: Seq<Seq<char>>, ids: Seq<u128>)
    requires
        ids.no_duplicates(),
        ids.len() <= 200,
    ensures
        collect_sample_ids(toks, ids) matches Ok(r) ==> r.no_duplicates() && r.len() <= 200,
    decreases toks.len(),
{
    if toks.len() > 0 {
        match crate::ids::uuid_parse_spec(toks[0]) {
            None => {},
            Some(u) => {
                let ids2 = if ids.contains(u) { ids } else { ids.push(u) };
                if !ids.contains(u) {
                    assert forall|a: int, b: int| 0 <= a < ids2.len() && 0 <= b < ids2.len() && a != b implies ids2[a] != ids2[b] by {
                        if a < ids.len() && b < ids.len() {
                        } else if a == ids.len() {
                            assert(ids2[a] == u);
                            assert(ids2[b] == ids[b]);
                        } else {
                            assert(ids2[b] == u);
                            assert(ids2[a] == ids[a]);
                        }
                    }
                }
                if ids2.len() <= 200 {
                    law_sample_ids_distinct_and_bounded(toks.drop_first(), ids2);
                }
            },
        }
    }
}

/// A report type's wire token reads back as the same report type.
pub proof fn law_report_token_round_trip(t: ReportType)
    ensures
        report_from_token(report_token(t)) == Some(t),
{
    reveal_strlit("ctc_change_log");
    reveal_strlit("assignment_history");
    reveal_strlit("budget_modifications");
    reveal_strlit("access_logs");
    let a = "ctc_change_log"@;
    let b = "assignment_history"@;
    let c = "budget_modifications"@;
    let d = "access_logs"@;
    assert(a.len() == 14 && b.len() == 18 && c.len() == 20 && d.len() == 11);
    assert(a != b && a != c && a != d && b != c && b != d && c != d);
}

/// Filters that pass the check with the interactive cap fit the interactive
/// preview.
pub proof fn law_capped_filters_are_interactive(f: ReportFilters)
    ensures
        validate_filters_spec(f, true) is Ok ==> interactive_range_spec(f.start_date@, f.end_date@),
{
}

/// After the entry type changes, the selected category is one the type
/// offers.
pub proof fn law_category_follows_type(entry_type: Seq<char>, current: Seq<char>)
    ensures
        exists|i: int| 0 <= i < category_options_spec(entry_type).len()
            && #[trigger] category_options_spec(entry_type)[i].0 == category_for_type_spec(entry_type, current),
{
    let opts = category_options_spec(entry_type);
    if exists|i: int| 0 <= i < opts.len() && #[trigger] opts[i].0 == current {
    } else {
        assert(opts[0].0 == category_for_type_spec(entry_type, current));
    }
}

/// An accepted whole-number amount is never negative.
pub proof fn law_whole_numbers_are_non_negative(label: Seq<char>, input: Seq<char>)
    ensures
        whole_number_spec(label, input) matches Ok(v) ==> v >= 0,
{
}

/// The forward-looking presets never end before they start.
pub proof fn law_forward_presets_are_ordered(p: TrendRangePreset, y: int, m: int, d: int)
    requires
        p != TrendRangePreset::CurrentMonth,
    ensures
        preset_days(p, y, m, d).0 <= preset_days(p, y, m, d).1,
{
}


/// The allocation timeline has one row per resource: every allocation's
/// resource has a row, and no resource has two.
pub proof fn law_one_timeline_row_per_resource(allocs: Seq<Allocation>)
    ensures
        forall|i: int| 0 <= i < allocs.len() ==> exists|k: int| 0 <= k < resource_entries(allocs).len()
            && #[trigger] resource_entries(allocs)[k].0 == (#[trigger] allocs[i]).resource_id,
        forall|a: int, b: int| 0 <= a < b < resource_entries(allocs).len()
            ==> (#[trigger] resource_entries(allocs)[a]).0 != (#[trigger] resource_entries(allocs)[b]).0,
    decreases allocs.len(),
{
    if allocs.len() > 0 {
        let g = allocs.drop_last();
        law_one_timeline_row_per_resource(g);
        let r = resource_entries(g);
        let x = allocs.last();
        assert forall|i: int| 0 <= i < allocs.len() implies exists|k: int| 0 <= k < resource_entries(allocs).len()
            && #[trigger] resource_entries(allocs)[k].0 == (#[trigger] allocs[i]).resource_id by {
            if i < allocs.len() - 1 {
                assert(allocs[i] == g[i]);
                let k = choose|k: int| 0 <= k < r.len() && #[trigger] r[k].0 == g[i].resource_id;
                assert(resource_entries(allocs)[k] == r[k]);
            } else if exists|k: int| 0 <= k < r.len() && (#[trigger] r[k]).0 == x.resource_id {
                let k = choose|k: int| 0 <= k < r.len() && (#[trigger] r[k]).0 == x.resource_id;
                assert(resource_entries(allocs)[k] == r[k]);
            } else {
                assert(resource_entries(allocs)[r.len() as int].0 == x.resource_id);
            }
        }
    }
}


/// Id of the `p`-th bar of a split allocation whose UUID is `u`.
pub open spec fn split_bar_id(u: u128, p: int) -> Seq<char> {
    uuid_hyphenated(u) + "-"@ + int_text(p)
}

/// A split bar's id is longer than a UUID, and its number can be read back.
proof fn lemma_split_bar_id(u: u128, v: u128, p: int, q: int)
    requires
        p >= 0,
        q >= 0,
    ensures
        split_bar_id(u, p).len() >= 38,
        split_bar_id(u, p)[0] == uuid_hyphenated(u)[0],
        split_bar_id(u, p) == split_bar_id(v, q) ==> p == q,
{
    reveal_strlit("-");
    lemma_uuid_text_shape(u);
    lemma_uuid_text_shape(v);
    lemma_decimal_digits_len(p as nat);
    let a = split_bar_id(u, p);
    let b = split_bar_id(v, q);
    assert(a.skip(37) =~= int_text(p));
    assert(b.skip(37) =~= int_text(q));
    if a == b {
        lemma_decimal_digits_injective(p as nat, q as nat);
    }
}

/// Where the bar at position `p` comes from: a weekend-including allocation
/// among the first `n` (its UUID), or a split one (its UUID and `p`).
pub open spec fn bar_id_origin(allocs: Seq<Allocation>, n: int, id: Seq<char>, p: int) -> bool {
    ||| exists|j: int| 0 <= j < n && (#[trigger] allocs[j]).include_weekend && id == uuid_hyphenated(allocs[j].id)
    ||| exists|j: int| 0 <= j < n && id == split_bar_id((#[trigger] allocs[j]).id, p)
}

proof fn lemma_bar_ids(allocs: Seq<Allocation>, hs: Seq<Seq<char>>, n: nat)
    requires
        n <= allocs.len(),
        forall|a: int, b: int| 0 <= a < b < allocs.len() ==> (#[trigger] allocs[a]).id != (#[trigger] allocs[b]).id,
    ensures
        forall|p: int| 0 <= p < allocation_bars_upto(allocs, hs, n).len()
            ==> bar_id_origin(allocs, n as int, #[trigger] allocation_bars_upto(allocs, hs, n)[p].id, p),
        forall|p: int, q: int| 0 <= p < q < allocation_bars_upto(allocs, hs, n).len()
            ==> (#[trigger] allocation_bars_upto(allocs, hs, n)[p]).id != (#[trigger] allocation_bars_upto(allocs, hs, n)[q]).id,
    decreases n,
{
    if n > 0 {
        lemma_bar_ids(allocs, hs, (n - 1) as nat);
        let prev = allocation_bars_upto(allocs, hs, (n - 1) as nat);
        let a = allocs[n - 1];
        let base = prev.len() as int;
        let fresh = allocation_bars(a, project_slot(allocs, n - 1), hs, base);
        let items = allocation_bars_upto(allocs, hs, n);
        assert(items == prev + fresh);
        lemma_uuid_text_shape(a.id);
        assert forall|p: int| 0 <= p < items.len() implies bar_id_origin(allocs, n as int, #[trigger] items[p].id, p) by {
            if p < base {
                assert(items[p] == prev[p]);
                assert(bar_id_origin(allocs, n - 1, prev[p].id, p));
            } else if a.include_weekend {
                assert(items[p] == fresh[p - base]);
                assert(allocs[n - 1].include_weekend && items[p].id == uuid_hyphenated(allocs[n - 1].id));
            } else {
                assert(items[p] == fresh[p - base]);
                assert(items[p].id == split_bar_id(allocs[n - 1].id, p));
            }
        }
        assert forall|p: int, q: int| 0 <= p < q < items.len() implies (#[trigger] items[p]).id != (#[trigger] items[q]).id by {
            if q < base {
                assert(items[p] == prev[p] && items[q] == prev[q]);
            } else {
                assert(items[q] == fresh[q - base]);
                let qid = items[q].id;
                if p < base {
                    assert(items[p] == prev[p]);
                    let pid = prev[p].id;
                    assert(bar_id_origin(allocs, n - 1, pid, p));
                    if exists|j: int| 0 <= j < n - 1 && (#[trigger] allocs[j]).include_weekend && pid == uuid_hyphenated(allocs[j].id) {
                        let j = choose|j: int| 0 <= j < n - 1 && (#[trigger] allocs[j]).include_weekend && pid == uuid_hyphenated(allocs[j].id);
                        lemma_uuid_text_shape(allocs[j].id);
                        if a.include_weekend {
                            assert(qid == uuid_hyphenated(a.id));
                            assert(allocs[j].id != allocs[n - 1].id);
                            if pid == qid {
                                lemma_uuid_text_injective(allocs[j].id, a.id);
                            }
                        } else {
                            assert(qid == split_bar_id(a.id, q));
                            lemma_split_bar_id(a.id, a.id, q, q);
                        }
                    } else {
                        let j = choose|j: int| 0 <= j < n - 1 && pid == split_bar_id((#[trigger] allocs[j]).id, p);
                        lemma_split_bar_id(allocs[j].id, a.id, p, q);
                        if a.include_weekend {
                            assert(qid == uuid_hyphenated(a.id));
                        } else {
                            assert(qid == split_bar_id(a.id, q));
                        }
                    }
                } else {
                    assert(!a.include_weekend);
                    assert(items[p] == fresh[p - base]);
                    assert(items[p].id == split_bar_id(a.id, p));
                    assert(qid == split_bar_id(a.id, q));
                    lemma_split_bar_id(a.id, a.id, p, q);
                }
            }
        }
    }
}

proof fn lemma_holiday_ids(hols: Seq<Holiday>, n: nat)
    requires
        n <= hols.len(),
        forall|a: int, b: int| 0 <= a < b < hols.len() ==> (#[trigger] hols[a]).id != (#[trigger] hols[b]).id,
    ensures
        forall|p: int| 0 <= p < holiday_items_upto(hols, n).len() ==> exists|j: int| 0 <= j < n
            && #[trigger] holiday_items_upto(hols, n)[p].id == "holiday-"@ + uuid_hyphenated((#[trigger] hols[j]).id),
        forall|p: int, q: int| 0 <= p < q < holiday_items_upto(hols, n).len()
            ==> (#[trigger] holiday_items_upto(hols, n)[p]).id != (#[trigger] holiday_items_upto(hols, n)[q]).id,
    decreases n,
{
    if n > 0 {
        lemma_holiday_ids(hols, (n - 1) as nat);
        let prev = holiday_items_upto(hols, (n - 1) as nat);
        let h = hols[n - 1];
        let fresh = holiday_item(h);
        let items = holiday_items_upto(hols, n);
        assert(items == prev + fresh);
        reveal_strlit("holiday-");
        assert forall|p: int| 0 <= p < items.len() implies exists|j: int| 0 <= j < n
            && #[trigger] items[p].id == "holiday-"@ + uuid_hyphenated((#[trigger] hols[j]).id) by {
            if p < prev.len() {
                assert(items[p] == prev[p]);
                let j = choose|j: int| 0 <= j < n - 1 && #[trigger] prev[p].id == "holiday-"@ + uuid_hyphenated((#[trigger] hols[j]).id);
                assert(items[p].id == "holiday-"@ + uuid_hyphenated(hols[j].id));
            } else {
                assert(items[p] == fresh[p - prev.len()]);
                assert(items[p].id == "holiday-"@ + uuid_hyphenated(hols[n - 1].id));
            }
        }
        assert forall|p: int, q: int| 0 <= p < q < items.len() implies (#[trigger] items[p]).id != (#[trigger] items[q]).id by {
            if q < prev.len() {
                assert(items[p] == prev[p] && items[q] == prev[q]);
            } else {
                assert(items[q] == fresh[q - prev.len()]);
                assert(p < prev.len());
                assert(items[p] == prev[p]);
                let j = choose|j: int| 0 <= j < n - 1 && #[trigger] prev[p].id == "holiday-"@ + uuid_hyphenated((#[trigger] hols[j]).id);
                let pid = items[p].id;
                let qid = items[q].id;
                assert(qid == "holiday-"@ + uuid_hyphenated(h.id));
                assert(hols[j].id != hols[n - 1].id);
                if pid == qid {
                    assert(pid.skip(8) =~= uuid_hyphenated(hols[j].id));
                    assert(qid.skip(8) =~= uuid_hyphenated(h.id));
                    lemma_uuid_text_injective(hols[j].id, h.id);
                }
            }
        }
    }
}

/// No two items of the allocation timeline share an id (the timeline
/// widget requires unique ids), as long as allocations and holidays carry
/// distinct ids: a whole bar is named by its allocation, a split bar by its
/// allocation and its position, a holiday span by `holiday-` and its holiday.
pub proof fn law_timeline_item_ids_are_unique(allocs: Seq<Allocation>, hols: Seq<Holiday>)
    requires
        forall|a: int, b: int| 0 <= a < b < allocs.len() ==> (#[trigger] allocs[a]).id != (#[trigger] allocs[b]).id,
        forall|a: int, b: int| 0 <= a < b < hols.len() ==> (#[trigger] hols[a]).id != (#[trigger] hols[b]).id,
    ensures
        forall|p: int, q: int| 0 <= p < q < timeline_items_spec(allocs, hols).len()
            ==> (#[trigger] timeline_items_spec(allocs, hols)[p]).id != (#[trigger] timeline_items_spec(allocs, hols)[q]).id,
{
    let hs = holiday_dates(hols);
    let bars = allocation_bars_upto(allocs, hs, allocs.len());
    let spans = holiday_items_upto(hols, hols.len());
    lemma_bar_ids(allocs, hs, allocs.len());
    lemma_holiday_ids(hols, hols.len());
    let items = timeline_items_spec(allocs, hols);
    assert(items == bars + spans);
    reveal_strlit("holiday-");
    assert forall|p: int, q: int| 0 <= p < q < items.len() implies (#[trigger] items[p]).id != (#[trigger] items[q]).id by {
        if q < bars.len() {
            assert(items[p] == bars[p] && items[q] == bars[q]);
        } else if p >= bars.len() {
            assert(items[p] == spans[p - bars.len()] && items[q] == spans[q - bars.len()]);
        } else {
            assert(items[p] == bars[p] && items[q] == spans[q - bars.len()]);
            let pid = bars[p].id;
            let k = q - bars.len();
            let j = choose|j: int| 0 <= j < hols.len() && #[trigger] spans[k].id == "holiday-"@ + uuid_hyphenated((#[trigger] hols[j]).id);
            assert(spans[k].id[0] == 'h');
            assert(bar_id_origin(allocs, allocs.len() as int, pid, p));
            if exists|i: int| 0 <= i < allocs.len() && (#[trigger] allocs[i]).include_weekend && pid == uuid_hyphenated(allocs[i].id) {
                let i = choose|i: int| 0 <= i < allocs.len() && (#[trigger] allocs[i]).include_weekend && pid == uuid_hyphenated(allocs[i].id);
                lemma_uuid_text_shape(allocs[i].id);
            } else {
                let i = choose|i: int| 0 <= i < allocs.len() && pid == split_bar_id((#[trigger] allocs[i]).id, p);
                lemma_split_bar_id(allocs[i].id, allocs[i].id, p, p);
                lemma_uuid_text_shape(allocs[i].id);
            }
        }
    }
}

/// The date window of the filters fits the preview cap, when it is enforced.
pub open spec fn window_allowed(f: ReportFilters, cap: bool) -> bool {
    match filter_dates_spec(f.start_date@, f.end_date@) {
        Ok((s, e)) => !cap || e - s + 1 <= 90,
        Err(_) => false,
    }
}

/// The user id is checked for the preview and the export alike: a filter
/// check that passes has an empty user id or a UUID, whether or not the
/// preview cap is enforced; when everything else is in order, a non-empty
/// user id that is not a UUID is refused with its own message; and a check
/// that passes with the cap also passes without it.
pub proof fn law_filters_need_a_uuid_user(f: ReportFilters, cap: bool)
    ensures
        validate_filters_spec(f, cap) is Ok ==> f.user_id@.len() == 0 || uuid_parse_spec(f.user_id@) is Some,
        validate_filters_spec(f, cap) is Ok <==> (report_from_token(f.report_type@) is Some && window_allowed(f, cap)
            && (f.user_id@.len() == 0 || uuid_parse_spec(f.user_id@) is Some)),
        report_from_token(f.report_type@) is Some && window_allowed(f, cap) && f.user_id@.len() > 0
            && uuid_parse_spec(f.user_id@) is None ==> validate_filters_spec(f, cap) == Err::<(), Seq<char>>("User ID must be a valid UUID"@),
        validate_filters_spec(f, true) is Ok ==> validate_filters_spec(f, false) is Ok,
{
}

/// The CTC form's working days: a field that reads as an `i32` is sent as
/// that number, an unreadable one as 22; the field never decides whether the
/// form passes, and changing it changes nothing else of the payload.
pub proof fn law_ctc_working_days(f: CtcFormInput, g: CtcFormInput)
    ensures
        ctc_form_spec(f) matches Ok(p) ==> (parse_i32_spec(f.working_days@) matches Some(v) ==> p.working_days_per_month == v),
        ctc_form_spec(f) matches Ok(p) ==> (parse_i32_spec(f.working_days@) is None ==> p.working_days_per_month == 22),
        f.resource_id@ == g.resource_id@ && f.base_salary@ == g.base_salary@ && f.hra_allowance@ == g.hra_allowance@
            && f.medical_allowance@ == g.medical_allowance@ && f.transport_allowance@ == g.transport_allowance@
            && f.meal_allowance@ == g.meal_allowance@ && f.risk_tier@ == g.risk_tier@ ==> {
            &&& (ctc_form_spec(f) is Ok <==> ctc_form_spec(g) is Ok)
            &&& (ctc_form_spec(f) matches Ok(p) ==> ctc_form_spec(g) matches Ok(q) ==> {
                &&& p.base_salary == q.base_salary
                &&& p.hra_allowance == q.hra_allowance
                &&& p.medical_allowance == q.medical_allowance
                &&& p.transport_allowance == q.transport_allowance
                &&& p.meal_allowance == q.meal_allowance
                &&& p.risk_tier == q.risk_tier
                &&& (parse_i32_spec(f.working_days@) == parse_i32_spec(g.working_days@) ==> p.working_days_per_month == q.working_days_per_month)
            })
        },
{
}

/// A month of the completeness trend without an integer missing count has
/// as many missing as employees less those with a CTC, never below zero, as
/// the report's totals and its departments do; with one, it keeps it.
pub proof fn law_trend_missing_is_derived(r: TrendCounts, t: Json, d: DepartmentCounts, dj: Json, i: int)
    requires
        trend_counts_match(r, t),
        department_counts_match(d, dj, i),
    ensures
        !member_has_i64(t, "total_missing"@) ==> r.total_missing == (if r.total_employees >= r.total_with_ctc {
            r.total_employees - r.total_with_ctc } else { 0 }),
        member_has_i64(t, "total_missing"@) ==> r.total_missing == member_i64(t, "total_missing"@, 0),
        r.total_missing >= 0 || member_has_i64(t, "total_missing"@),
        !member_has_i64(dj, "missing_ctc"@) ==> d.missing_ctc == (if d.total_employees >= d.with_ctc {
            d.total_employees - d.with_ctc } else { 0 }),
{
}

proof fn lemma_seq_lt_irreflexive(a: Seq<char>)
    ensures
        !seq_lt(a, a),
    decreases a.len(),
{
    if a.len() > 0 {
        lemma_seq_lt_irreflexive(a.drop_first());
    }
}

proof fn lemma_seq_lt_asymmetric(a: Seq<char>, b: Seq<char>)
    requires
        seq_lt(a, b),
    ensures
        !seq_lt(b, a),
    decreases a.len(),
{
    if a.len() > 0 && b.len() > 0 && a[0] == b[0] {
        lemma_seq_lt_asymmetric(a.drop_first(), b.drop_first());
    }
}

/// The validation window is accepted exactly when both dates are given and
/// the end does not sort before the start: a one-day window (equal dates)
/// and any end that sorts after the start pass, a reversed window fails.
pub proof fn law_validation_window_order(f: ValidationFilters)
    ensures
        validate_report_filters_spec(f) is Ok <==> (f.start_date@.len() > 0 && f.end_date@.len() > 0
            && !seq_lt(f.end_date@, f.start_date@)),
        f.start_date@.len() > 0 && f.start_date@ == f.end_date@ ==> validate_report_filters_spec(f) is Ok,
        f.start_date@.len() > 0 && f.end_date@.len() > 0 && seq_lt(f.start_date@, f.end_date@) ==> validate_report_filters_spec(f) is Ok,
        f.start_date@.len() > 0 && f.end_date@.len() > 0 && seq_lt(f.end_date@, f.start_date@)
            ==> validate_report_filters_spec(f) == Err::<(), Seq<char>>("End date must be greater than or equal to start date"@),
{
    lemma_seq_lt_irreflexive(f.start_date@);
    if seq_lt(f.start_date@, f.end_date@) {
        lemma_seq_lt_asymmetric(f.start_date@, f.end_date@);
    }
}

} // verus!
