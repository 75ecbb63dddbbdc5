use vstd::prelude::*;
use crate::dates::{MAX_DAY, day_in_range, iso_date_text, iso_date_parse, weekday_of, parse_iso_date, format_iso_date, add_days, weekday_index, month0_of, day_of_month_of, month0_of_day, day_of_month};

verus! {

/// The runs of consecutive `true` flags, as inclusive index pairs, in order.
pub open spec fn runs_of(f: Seq<bool>) -> Seq<(int, int)>
    decreases f.len(),
{
    if f.len() == 0 {
        Seq::empty()
    } else {
        let r = runs_of(f.drop_last());
        let n = f.len() - 1;
        if !f[n] {
            r
        } else if n > 0 && f[n - 1] {
            r.update(r.len() - 1, (r.last().0, n))
        } else {
            r.push((n, n))
        }
    }
}

/// Runs end at the last index exactly when its flag is set.
pub proof fn lemma_runs_of_last(f: Seq<bool>)
    ensures
        f.len() > 0 && f[f.len() - 1] ==> runs_of(f).len() > 0 && runs_of(f).last().1 == f.len() - 1,
        runs_of(f).len() > 0 ==> runs_of(f).last().1 < f.len(),
    decreases f.len(),
{
    if f.len() > 0 {
        lemma_runs_of_last(f.drop_last());
    }
}

/// The runs of consecutive `true` flags of `working`, as inclusive index
/// pairs in order.
pub fn working_runs(working: &Vec<bool>) -> (r: Vec<(usize, usize)>)
    ensures
        r@.len() == runs_of(working@).len(),
        forall|k: int| 0 <= k < r@.len() ==> (#[trigger] r@[k]).0 == runs_of(working@)[k].0
            && r@[k].1 == runs_of(working@)[k].1,
{
    let mut out: Vec<(usize, usize)> = Vec::new();
    let mut i: usize = 0;
    while i < working.len()
        invariant
            i <= working@.len(),
            out@.len() == runs_of(working@.take(i as int)).len(),
            forall|k: int| 0 <= k < out@.len() ==> (#[trigger] out@[k]).0 == runs_of(working@.take(i as int))[k].0
                && out@[k].1 == runs_of(working@.take(i as int))[k].1,
        decreases working.len() - i,
    {
        let ghost f = working@.take(i + 1);
        proof {
            assert(f.drop_last() =~= working@.take(i as int));
            lemma_runs_of_last(working@.take(i as int));
        }
        if working[i] {
            if i > 0 && working[i - 1] {
                proof {
                    assert(working@.take(i as int)[i - 1] == working@[i - 1]);
                }
                let last = out.len() - 1;
                let first = out[last].0;
                out.set(last, (first, i));
            } else {
                out.push((i, i));
            }
        }
        i = i + 1;
    }
    assert(working@.take(working@.len() as int) =~= working@);
    out
}

/// A day counts as working when it is Monday to Friday and its
/// `YYYY-MM-DD` text is not among the holidays.
pub open spec fn is_working_day(day: int, holidays: Seq<Seq<char>>) -> bool {
    weekday_of(day) < 5 && !holidays.contains(iso_date_text(day))
}

/// Working-day flags of the days `start ..= start + len - 1`.
pub open spec fn working_flags(start: int, len: nat, holidays: Seq<Seq<char>>) -> Seq<bool> {
    Seq::new(len, |i: int| is_working_day(start + i, holidays))
}

fn holiday_listed(holidays: &Vec<String>, text: &String) -> (r: bool)
    ensures
        r == holidays@.map_values(|h: String| h@).contains(text@),
{
    let ghost hs = holidays@.map_values(|h: String| h@);
    let mut i: usize = 0;
    while i < holidays.len()
        invariant
            i <= holidays@.len(),
            hs == holidays@.map_values(|h: String| h@),
            forall|k: int| 0 <= k < i ==> hs[k] != text@,
        decreases holidays.len() - i,
    {
        if holidays[i] == *text {
            assert(hs[i as int] == text@);
            return true;
        }
        i = i + 1;
    }
    false
}

/// The timeline spans of an allocation that skips weekends and holidays:
/// one `[start, end)` pair of `YYYY-MM-DD` texts per maximal run of working
/// days between the allocation's start and end dates (both included), the
/// end being the day after the run. `None` when a date does not parse, and
/// when the end date is the last day chrono can hold (there is no day after
/// it to end a span on).
pub open spec fn working_periods_spec(start: Seq<char>, end: Seq<char>, holidays: Seq<Seq<char>>) -> Option<Seq<(Seq<char>, Seq<char>)>> {
    match (iso_date_parse(start), iso_date_parse(end)) {
        (Some(s), Some(e)) => if e >= MAX_DAY {
            None
        } else if s > e {
            Some(Seq::empty())
        } else {
            let f = working_flags(s, (e - s + 1) as nat, holidays);
            Some(runs_of(f).map_values(|r: (int, int)| (iso_date_text(s + r.0), iso_date_text(s + r.1 + 1))))
        },
        _ => None,
    }
}

/// Splits an allocation into its working-day spans for the timeline.
pub fn allocation_working_periods(start_date: &str, end_date: &str, holidays: &Vec<String>) -> (r: Option<Vec<(String, String)>>)
    ensures
        match (r, working_periods_spec(start_date@, end_date@, holidays@.map_values(|h: String| h@))) {
            (None, None) => true,
            (Some(v), Some(w)) => v@.len() == w.len() && forall|k: int| 0 <= k < v@.len() ==> (#[trigger] v@[k]).0@ == w[k].0
                && v@[k].1@ == w[k].1,
            _ => false,
        },
{
    let s = match parse_iso_date(start_date) {
        Some(s) => s,
        None => return None,
    };
    let e = match parse_iso_date(end_date) {
        Some(e) => e,
        None => return None,
    };
    if e >= MAX_DAY {
        return None;
    }
    if s > e {
        return Some(Vec::new());
    }
    let ghost hs = holidays@.map_values(|h: String| h@);
    let len: usize = (e - s + 1) as usize;
    let mut flags: Vec<bool> = Vec::new();
    let mut i: usize = 0;
    while i < len
        invariant
            i <= len,
            len == e - s + 1,
            s <= e < MAX_DAY,
            day_in_range(s as int),
            day_in_range(e as int),
            hs == holidays@.map_values(|h: String| h@),
            flags@ == working_flags(s as int, i as nat, hs),
        decreases len - i,
    {
        let day: i32 = s + i as i32;
        let wd = weekday_index(day);
        let text = format_iso_date(day);
        let listed = holiday_listed(holidays, &text);
        flags.push(wd < 5 && !listed);
        proof {
            assert(flags@ =~= working_flags(s as int, (i + 1) as nat, hs));
        }
        i = i + 1;
    }
    let runs = working_runs(&flags);
    let ghost f = working_flags(s as int, len as nat, hs);
    let ghost rs = runs_of(f);
    proof { lemma_runs_bounds(f); }
    let mut out: Vec<(String, String)> = Vec::new();
    let mut k: usize = 0;
    while k < runs.len()
        invariant
            k <= runs@.len() == rs.len(),
            flags@ == f,
            f.len() == len,
            rs == runs_of(f),
            len == e - s + 1,
            s <= e < MAX_DAY,
            day_in_range(s as int),
            forall|j: int| 0 <= j < rs.len() ==> 0 <= (#[trigger] rs[j]).0 <= rs[j].1 < f.len(),
            forall|j: int| 0 <= j < runs@.len() ==> (#[trigger] runs@[j]).0 == rs[j].0 && runs@[j].1 == rs[j].1,
            out@.len() == k,
            forall|j: int| 0 <= j < k ==> (#[trigger] out@[j]).0@ == iso_date_text(s + rs[j].0)
                && out@[j].1@ == iso_date_text(s + rs[j].1 + 1),
        decreases runs.len() - k,
    {
        let (a, b) = runs[k];
        let first: i32 = s + a as i32;
        let last: i32 = s + b as i32;
        let after = match add_days(last, 1) {
            Some(n) => n,
            None => last,
        };
        out.push((format_iso_date(first), format_iso_date(after)));
        k = k + 1;
    }
    Some(out)
}

/// Run indices lie within the flags and each run is ordered.
pub proof fn lemma_runs_bounds(f: Seq<bool>)
    ensures
        forall|j: int| 0 <= j < runs_of(f).len() ==> 0 <= (#[trigger] runs_of(f)[j]).0 <= runs_of(f)[j].1 < f.len(),
    decreases f.len(),
{
    if f.len() > 0 {
        lemma_runs_bounds(f.drop_last());
        lemma_runs_of_last(f.drop_last());
    }
}

/// The span of a timeline bar that ends on `end` inclusive: the day after
/// `end`, or `end` itself as given when it is not a date. `None` when `end`
/// is the last day chrono can hold.
pub open spec fn inclusive_end_spec(end: Seq<char>) -> Option<Seq<char>> {
    match iso_date_parse(end) {
        Some(e) => if e >= MAX_DAY { None } else { Some(iso_date_text(e + 1)) },
        None => Some(end),
    }
}

/// End text of a continuous (weekend-including) allocation bar.
pub fn inclusive_end_date(end_date: &str) -> (r: Option<String>)
    ensures
        match r {
            Some(t) => inclusive_end_spec(end_date@) == Some(t@),
            None => inclusive_end_spec(end_date@) is None,
        },
{
    match parse_iso_date(end_date) {
        Some(e) => {
            if e >= MAX_DAY {
                return None;
            }
            let after = match add_days(e, 1) {
                Some(n) => n,
                None => e,
            };
            Some(format_iso_date(after))
        },
        None => Some(crate::text::owned(end_date)),
    }
}

/// Background span of a holiday: its day and the day after. `None` when the
/// date does not parse or is the last day chrono can hold.
pub fn holiday_span(date: &str) -> (r: Option<(String, String)>)
    ensures
        match r {
            Some((a, b)) => iso_date_parse(date@) matches Some(d) && d < MAX_DAY && a@ == date@ && b@ == iso_date_text(d + 1),
            None => match iso_date_parse(date@) {
                Some(d) => d >= MAX_DAY,
                None => true,
            },
        },
{
    match parse_iso_date(date) {
        Some(d) => {
            if d >= MAX_DAY {
                return None;
            }
            let after = match add_days(d, 1) {
                Some(n) => n,
                None => d,
            };
            Some((crate::text::owned(date), format_iso_date(after)))
        },
        None => None,
    }
}

} // verus!

verus! {

/// The runs are exactly the maximal stretches of set flags: each run lies
/// within the flags and holds only set flags; it cannot be extended on
/// either side; runs come in order with at least one unset flag between
/// them; and every set flag belongs to a run.
pub open spec fn are_maximal_runs(f: Seq<bool>, r: Seq<(int, int)>) -> bool {
    &&& forall|k: int| 0 <= k < r.len() ==> 0 <= (#[trigger] r[k]).0 <= r[k].1 < f.len()
    &&& forall|k: int, d: int| #![trigger r[k], f[d]] 0 <= k < r.len() && r[k].0 <= d <= r[k].1 ==> f[d]
    &&& forall|k: int| 0 <= k < r.len() ==> ((#[trigger] r[k]).0 == 0 || !f[r[k].0 - 1])
    &&& forall|k: int| 0 <= k < r.len() ==> ((#[trigger] r[k]).1 == f.len() - 1 || !f[r[k].1 + 1])
    &&& forall|k: int| 0 <= k < r.len() - 1 ==> (#[trigger] r[k]).1 + 1 < r[k + 1].0
    &&& forall|d: int| 0 <= d < f.len() && #[trigger] f[d] ==> exists|k: int| 0 <= k < r.len() && (#[trigger] r[k]).0 <= d <= r[k].1
}

/// The working-day spans of an allocation are its maximal runs of working
/// days: no working day is left out, no span holds a weekend day or a
/// holiday, spans never touch or overlap, and none could be longer.
pub proof fn law_runs_are_maximal(f: Seq<bool>)
    ensures
        are_maximal_runs(f, runs_of(f)),
    decreases f.len(),
{
    if f.len() == 0 {
        return;
    }
    let g = f.drop_last();
    law_runs_are_maximal(g);
    lemma_runs_of_last(g);
    let rg = runs_of(g);
    let r = runs_of(f);
    let n = f.len() - 1;
    assert forall|d: int| 0 <= d < n implies f[d] == g[d] by {}
    if !f[n] {
        assert(r == rg);
        assert forall|k: int| 0 <= k < r.len() implies ((#[trigger] r[k]).1 == f.len() - 1 || !f[r[k].1 + 1]) by {
            if r[k].1 != g.len() - 1 {
                assert(!g[r[k].1 + 1]);
            }
        }
        assert forall|d: int| 0 <= d < f.len() && #[trigger] f[d] implies exists|k: int| 0 <= k < r.len() && (#[trigger] r[k]).0 <= d <= r[k].1 by {
            assert(g[d]);
        }
    } else if n > 0 && f[n - 1] {
        assert(g[n - 1]);
        let last = rg.len() - 1;
        assert(rg.last().1 == n - 1);
        assert(r == rg.update(last, (rg.last().0, n)));
        assert forall|k: int, d: int| #![trigger r[k], f[d]] 0 <= k < r.len() && r[k].0 <= d <= r[k].1 implies f[d] by {
            if k == last {
                if d < n {
                    assert(rg[k].0 <= d <= rg[k].1);
                    assert(g[d]);
                }
            } else {
                assert(rg[k].0 <= d <= rg[k].1);
                assert(g[d]);
            }
        }
        assert forall|k: int| 0 <= k < r.len() implies ((#[trigger] r[k]).0 == 0 || !f[r[k].0 - 1]) by {
            assert(rg[k].0 == 0 || !g[rg[k].0 - 1]);
        }
        assert forall|k: int| 0 <= k < r.len() implies ((#[trigger] r[k]).1 == f.len() - 1 || !f[r[k].1 + 1]) by {
            if k != last {
                assert(rg[k].1 + 1 < rg[k + 1].0);
                assert(rg[k].1 == g.len() - 1 || !g[rg[k].1 + 1]);
            }
        }
        assert forall|k: int| 0 <= k < r.len() - 1 implies (#[trigger] r[k]).1 + 1 < r[k + 1].0 by {
            assert(rg[k].1 + 1 < rg[k + 1].0);
        }
        assert forall|d: int| 0 <= d < f.len() && #[trigger] f[d] implies exists|k: int| 0 <= k < r.len() && (#[trigger] r[k]).0 <= d <= r[k].1 by {
            if d == n {
                assert(r[last].0 <= d <= r[last].1);
            } else {
                assert(g[d]);
                let k = choose|k: int| 0 <= k < rg.len() && (#[trigger] rg[k]).0 <= d <= rg[k].1;
                assert(r[k].0 <= d <= r[k].1);
            }
        }
    } else {
        assert(r == rg.push((n, n)));
        if rg.len() > 0 {
            assert(rg.last().1 < n);
            assert(rg.last().1 != n - 1) by {
                let l = rg.len() - 1;
                assert(rg[l].0 <= rg[l].1 <= rg[l].1);
                assert(g[rg[l].1]);
            }
        }
        assert forall|k: int, d: int| #![trigger r[k], f[d]] 0 <= k < r.len() && r[k].0 <= d <= r[k].1 implies f[d] by {
            if k < rg.len() {
                assert(rg[k].0 <= d <= rg[k].1);
                assert(g[d]);
            }
        }
        assert forall|k: int| 0 <= k < r.len() implies ((#[trigger] r[k]).0 == 0 || !f[r[k].0 - 1]) by {
            if k < rg.len() {
                assert(rg[k].0 == 0 || !g[rg[k].0 - 1]);
            }
        }
        assert forall|k: int| 0 <= k < r.len() implies ((#[trigger] r[k]).1 == f.len() - 1 || !f[r[k].1 + 1]) by {
            if k < rg.len() {
                assert(rg[k].1 == g.len() - 1 || !g[rg[k].1 + 1]);
            }
        }
        assert forall|k: int| 0 <= k < r.len() - 1 implies (#[trigger] r[k]).1 + 1 < r[k + 1].0 by {
            if k < rg.len() - 1 {
                assert(rg[k].1 + 1 < rg[k + 1].0);
            }
        }
        assert forall|d: int| 0 <= d < f.len() && #[trigger] f[d] implies exists|k: int| 0 <= k < r.len() && (#[trigger] r[k]).0 <= d <= r[k].1 by {
            if d == n {
                assert(r[rg.len() as int].0 <= d <= r[rg.len() as int].1);
            } else {
                assert(g[d]);
                let k = choose|k: int| 0 <= k < rg.len() && (#[trigger] rg[k]).0 <= d <= rg[k].1;
                assert(r[k].0 <= d <= r[k].1);
            }
        }
    }
}

} // verus!

verus! {

/// Lower-case English name of a zero-based month.
pub open spec fn month_name(m: int) -> Seq<char> {
    if m == 0 { "january"@ }
    else if m == 1 { "february"@ }
    else if m == 2 { "march"@ }
    else if m == 3 { "april"@ }
    else if m == 4 { "may"@ }
    else if m == 5 { "june"@ }
    else if m == 6 { "july"@ }
    else if m == 7 { "august"@ }
    else if m == 8 { "september"@ }
    else if m == 9 { "october"@ }
    else if m == 10 { "november"@ }
    else { "december"@ }
}

fn month_name_of(m: u32) -> (r: &'static str)
    ensures
        r@ == month_name(m as int),
{
    if m == 0 { "january" }
    else if m == 1 { "february" }
    else if m == 2 { "march" }
    else if m == 3 { "april" }
    else if m == 4 { "may" }
    else if m == 5 { "june" }
    else if m == 6 { "july" }
    else if m == 7 { "august" }
    else if m == 8 { "september" }
    else if m == 9 { "october" }
    else if m == 10 { "november" }
    else { "december" }
}

/// The style rule that greys a holiday's day on the timeline axis.
pub open spec fn holiday_axis_rule_spec(day: int) -> Seq<char> {
    ".vis-time-axis .vis-text.vis-minor.vis-day"@ + crate::numbers::int_text(day_of_month_of(day)) + ".vis-"@
        + month_name(month0_of(day))
        + " { background-color: rgba(156, 163, 175, 0.35) !important; }\n"@
}

/// The rules for all holidays whose date parses, in order.
pub open spec fn holiday_axis_css_spec(holidays: Seq<Seq<char>>) -> Seq<char>
    decreases holidays.len(),
{
    if holidays.len() == 0 {
        Seq::empty()
    } else {
        holiday_axis_css_spec(holidays.drop_last()) + match iso_date_parse(holidays.last()) {
            Some(d) => holiday_axis_rule_spec(d),
            None => Seq::empty(),
        }
    }
}

/// Style rules that grey every holiday on the timeline axis.
pub fn holiday_axis_css(holidays: &Vec<String>) -> (r: String)
    ensures
        r@ == holiday_axis_css_spec(holidays@.map_values(|h: String| h@)),
{
    let ghost hs = holidays@.map_values(|h: String| h@);
    let mut out: Vec<char> = Vec::new();
    let mut i: usize = 0;
    while i < holidays.len()
        invariant
            i <= holidays@.len(),
            hs == holidays@.map_values(|h: String| h@),
            out@ == holiday_axis_css_spec(hs.take(i as int)),
        decreases holidays.len() - i,
    {
        proof {
            assert(hs.take(i + 1).drop_last() =~= hs.take(i as int));
            assert(hs.take(i + 1).last() == holidays@[i as int]@);
        }
        match parse_iso_date(holidays[i].as_str()) {
            Some(d) => {
                let ghost before = out@;
                let day = day_of_month(d);
                let month = month0_of_day(d);
                let day_text = crate::numbers::i64_text(day as i64);
                crate::text::append_str(&mut out, ".vis-time-axis .vis-text.vis-minor.vis-day");
                crate::text::append_str(&mut out, day_text.as_str());
                crate::text::append_str(&mut out, ".vis-");
                crate::text::append_str(&mut out, month_name_of(month));
                crate::text::append_str(&mut out, " { background-color: rgba(156, 163, 175, 0.35) !important; }\n");
                proof {
                    assert(out@ =~= before + holiday_axis_rule_spec(d as int));
                }
            },
            None => {
                assert(holiday_axis_css_spec(hs.take(i + 1)) =~= holiday_axis_css_spec(hs.take(i as int)));
            },
        }
        i = i + 1;
    }
    assert(hs.take(holidays@.len() as int) =~= hs);
    crate::text::string_from_chars(&out)
}

} // verus!

verus! {

/// The texts of a list of strings.
pub open spec fn texts_of(v: Seq<String>) -> Seq<Seq<char>> {
    v.map_values(|n: String| n@)
}

/// The distinct names in order of first appearance.
pub open spec fn first_seen(names: Seq<Seq<char>>) -> Seq<Seq<char>>
    decreases names.len(),
{
    if names.len() == 0 {
        Seq::empty()
    } else {
        let r = first_seen(names.drop_last());
        if r.contains(names.last()) { r } else { r.push(names.last()) }
    }
}

/// The names seen first hold no repeats, and every name is among them.
pub proof fn lemma_first_seen(names: Seq<Seq<char>>)
    ensures
        first_seen(names).no_duplicates(),
        forall|i: int| 0 <= i < names.len() ==> first_seen(names).contains(#[trigger] names[i]),
        forall|k: int| 0 <= k < first_seen(names).len() ==> names.contains(#[trigger] first_seen(names)[k]),
    decreases names.len(),
{
    if names.len() > 0 {
        let g = names.drop_last();
        lemma_first_seen(g);
        assert forall|i: int| 0 <= i < names.len() implies first_seen(names).contains(#[trigger] names[i]) by {
            if i < names.len() - 1 {
                assert(names[i] == g[i]);
                assert(first_seen(g).contains(g[i]));
                let k = choose|k: int| 0 <= k < first_seen(g).len() && first_seen(g)[k] == g[i];
                assert(first_seen(names)[k] == first_seen(g)[k]);
            } else {
                if !first_seen(g).contains(names.last()) {
                    assert(first_seen(names).last() == names.last());
                    assert(first_seen(names)[first_seen(names).len() - 1] == names[i]);
                }
            }
        }
        assert forall|k: int| 0 <= k < first_seen(names).len() implies names.contains(#[trigger] first_seen(names)[k]) by {
            if k < first_seen(g).len() {
                assert(first_seen(names)[k] == first_seen(g)[k]);
                let j = choose|j: int| 0 <= j < g.len() && g[j] == first_seen(g)[k];
                assert(names[j] == g[j]);
            } else {
                assert(first_seen(names)[k] == names.last());
                assert(names[names.len() - 1] == names.last());
            }
        }
    }
}

/// For each name, its position among the distinct names in order of first
/// appearance.
pub fn first_appearance_ranks(names: &Vec<String>) -> (r: Vec<usize>)
    ensures
        r@.len() == names@.len(),
        forall|i: int| 0 <= i < r@.len() ==> (#[trigger] r@[i]) < first_seen(texts_of(names@)).len()
            && first_seen(texts_of(names@))[r@[i] as int] == names@[i]@,
{
    let ghost ns = texts_of(names@);
    let mut seen: Vec<String> = Vec::new();
    let mut out: Vec<usize> = Vec::new();
    let mut i: usize = 0;
    while i < names.len()
        invariant
            i <= names@.len(),
            ns == texts_of(names@),
            texts_of(seen@) == first_seen(ns.take(i as int)),
            out@.len() == i,
            forall|k: int| 0 <= k < i ==> (#[trigger] out@[k]) < seen@.len() && seen@[out@[k] as int]@ == ns[k],
        decreases names.len() - i,
    {
        let ghost sv = texts_of(seen@);
        proof {
            assert(ns.take(i + 1).drop_last() =~= ns.take(i as int));
            assert(ns.take(i + 1).last() == names@[i as int]@);
        }
        let mut p: usize = 0;
        while p < seen.len()
            invariant
                p <= seen@.len(),
                i < names@.len(),
                sv == texts_of(seen@),
                forall|k: int| 0 <= k < p ==> seen@[k]@ != names@[i as int]@,
            ensures
                p <= seen@.len(),
                i < names@.len(),
                forall|k: int| 0 <= k < p ==> seen@[k]@ != names@[i as int]@,
                p < seen@.len() ==> seen@[p as int]@ == names@[i as int]@,
            decreases seen.len() - p,
        {
            if seen[p] == names[i] {
                break;
            }
            p = p + 1;
        }
        if p == seen.len() {
            proof {
                assert(!sv.contains(names@[i as int]@)) by {
                    if sv.contains(names@[i as int]@) {
                        let k = choose|k: int| 0 <= k < sv.len() && sv[k] == names@[i as int]@;
                        assert(seen@[k]@ == names@[i as int]@);
                    }
                }
            }
            seen.push(names[i].clone());
            proof {
                assert(texts_of(seen@) =~= sv.push(names@[i as int]@));
            }
        } else {
            proof {
                assert(sv[p as int] == names@[i as int]@);
                assert(sv.contains(names@[i as int]@));
            }
        }
        out.push(p);
        i = i + 1;
    }
    assert(ns.take(names@.len() as int) =~= ns);
    proof {
        assert forall|k: int| 0 <= k < out@.len() implies (#[trigger] out@[k]) < first_seen(ns).len()
            && first_seen(ns)[out@[k] as int] == names@[k]@ by {
            assert(texts_of(seen@)[out@[k] as int] == seen@[out@[k] as int]@);
        }
    }
    out
}

/// The palette slot of each allocation's project: projects take the palette
/// colours in order of first appearance, wrapping around the palette.
pub fn project_color_slots(names: &Vec<String>, palette_len: usize) -> (r: Vec<usize>)
    requires
        palette_len > 0,
    ensures
        r@.len() == names@.len(),
        forall|i: int, k: int| #![trigger r@[i], first_seen(texts_of(names@))[k]]
            0 <= i < r@.len() && 0 <= k < first_seen(texts_of(names@)).len()
            && first_seen(texts_of(names@))[k] == names@[i]@ ==> r@[i] == k % (palette_len as int),
{
    let ranks = first_appearance_ranks(names);
    let ghost fs = first_seen(texts_of(names@));
    proof { lemma_first_seen(texts_of(names@)); }
    let mut out: Vec<usize> = Vec::new();
    let mut i: usize = 0;
    while i < ranks.len()
        invariant
            i <= ranks@.len() == names@.len(),
            palette_len > 0,
            fs == first_seen(texts_of(names@)),
            fs.no_duplicates(),
            forall|j: int| 0 <= j < ranks@.len() ==> (#[trigger] ranks@[j]) < fs.len() && fs[ranks@[j] as int] == names@[j]@,
            out@.len() == i,
            forall|j: int| 0 <= j < i ==> #[trigger] out@[j] == ranks@[j] % palette_len,
        decreases ranks.len() - i,
    {
        out.push(ranks[i] % palette_len);
        i = i + 1;
    }
    proof {
        assert forall|j: int, k: int| #![trigger out@[j], fs[k]] 0 <= j < out@.len() && 0 <= k < fs.len() && fs[k] == names@[j]@ implies out@[j] == k % (palette_len as int) by {
            assert(fs[ranks@[j] as int] == fs[k]);
            assert(ranks@[j] == k);
        }
    }
    out
}

} // verus!
