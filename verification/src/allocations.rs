use vstd::prelude::*;
use crate::text::{append_str, append_chars, chars_of, string_from_chars, owned, cat, seq_lt, chars_lt,
    lemma_seq_lt_total, lemma_seq_lt_transitive};
use crate::ids::{uuid_hyphenated, uuid_text};
use crate::numbers::{int_text, usize_text};
use crate::dates::{MAX_DAY, iso_date_parse, iso_date_text, parse_iso_date};
use crate::timeline::{working_periods_spec, allocation_working_periods, inclusive_end_spec, inclusive_end_date,
    holiday_span, first_seen, texts_of, project_color_slots, lemma_first_seen};

verus! {

/// One assignment of a resource to a project over a date range.
pub struct Allocation {
    pub id: u128,
    pub project_id: u128,
    pub resource_id: u128,
    pub start_date: String,
    pub end_date: String,
    /// The allocation percentage rounded to a whole number, as the timeline
    /// prints it.
    pub percentage_label: String,
    pub project_name: String,
    pub resource_name: String,
    pub include_weekend: bool,
}

/// A resource offered by the allocation form.
pub struct Resource {
    pub id: u128,
    pub name: String,
}

/// A public holiday.
pub struct Holiday {
    pub id: u128,
    pub name: String,
    pub date: String,
    pub description: Option<String>,
}

/// A project offered by the allocation form.
pub struct Project {
    pub id: u128,
    pub name: String,
}

/// A row of the allocation timeline (one per resource).
pub struct TimelineGroup {
    pub id: String,
    pub content: String,
    pub class_name: Option<String>,
    pub style: Option<String>,
}

/// A bar or background span on the allocation timeline.
pub struct TimelineItem {
    pub id: String,
    pub group: Option<String>,
    pub content: String,
    pub start: String,
    pub end: Option<String>,
    pub class_name: Option<String>,
    pub style: Option<String>,
    pub editable: Option<bool>,
    pub item_type: Option<String>,
}

/// The text of an optional string.
pub open spec fn opt_text(o: Option<String>) -> Option<Seq<char>> {
    match o {
        Some(s) => Some(s@),
        None => None,
    }
}

/// A timeline item with its texts as character sequences.
pub struct ItemView {
    pub id: Seq<char>,
    pub group: Option<Seq<char>>,
    pub content: Seq<char>,
    pub start: Seq<char>,
    pub end: Option<Seq<char>>,
    pub class_name: Option<Seq<char>>,
    pub style: Option<Seq<char>>,
    pub editable: Option<bool>,
    pub item_type: Option<Seq<char>>,
}

impl View for TimelineItem {
    type V = ItemView;

    open spec fn view(&self) -> ItemView {
        ItemView {
            id: self.id@,
            group: opt_text(self.group),
            content: self.content@,
            start: self.start@,
            end: opt_text(self.end),
            class_name: opt_text(self.class_name),
            style: opt_text(self.style),
            editable: self.editable,
            item_type: opt_text(self.item_type),
        }
    }
}

/// Number of colours projects cycle through on the timeline.
pub const PALETTE_SIZE: usize = 25;

/// Colour `i` of the project palette: bar colour, background class, text
/// class and text colour.
pub open spec fn palette_spec(i: int) -> (Seq<char>, Seq<char>, Seq<char>, Seq<char>) {
    if i == 0 {
        ("#3b82f6"@, "bg-blue-500"@, "text-white"@, "#ffffff"@)
    } else if i == 1 {
        ("#ef4444"@, "bg-red-500"@, "text-white"@, "#ffffff"@)
    } else if i == 2 {
        ("#22c55e"@, "bg-green-500"@, "text-white"@, "#ffffff"@)
    } else if i == 3 {
        ("#eab308"@, "bg-yellow-500"@, "text-slate-900"@, "#0f172a"@)
    } else if i == 4 {
        ("#a855f7"@, "bg-purple-500"@, "text-white"@, "#ffffff"@)
    } else if i == 5 {
        ("#f97316"@, "bg-orange-500"@, "text-white"@, "#ffffff"@)
    } else if i == 6 {
        ("#06b6d4"@, "bg-cyan-500"@, "text-slate-900"@, "#0f172a"@)
    } else if i == 7 {
        ("#ec4899"@, "bg-pink-500"@, "text-white"@, "#ffffff"@)
    } else if i == 8 {
        ("#6366f1"@, "bg-indigo-500"@, "text-white"@, "#ffffff"@)
    } else if i == 9 {
        ("#14b8a6"@, "bg-teal-500"@, "text-white"@, "#ffffff"@)
    } else if i == 10 {
        ("#84cc16"@, "bg-lime-500"@, "text-slate-900"@, "#0f172a"@)
    } else if i == 11 {
        ("#f43f5e"@, "bg-rose-500"@, "text-white"@, "#ffffff"@)
    } else if i == 12 {
        ("#8b5cf6"@, "bg-violet-500"@, "text-white"@, "#ffffff"@)
    } else if i == 13 {
        ("#0ea5e9"@, "bg-sky-500"@, "text-slate-900"@, "#0f172a"@)
    } else if i == 14 {
        ("#10b981"@, "bg-emerald-500"@, "text-white"@, "#ffffff"@)
    } else if i == 15 {
        ("#f59e0b"@, "bg-amber-500"@, "text-slate-900"@, "#0f172a"@)
    } else if i == 16 {
        ("#d946ef"@, "bg-fuchsia-500"@, "text-white"@, "#ffffff"@)
    } else if i == 17 {
        ("#64748b"@, "bg-slate-500"@, "text-white"@, "#ffffff"@)
    } else if i == 18 {
        ("#71717a"@, "bg-zinc-500"@, "text-white"@, "#ffffff"@)
    } else if i == 19 {
        ("#dc2626"@, "bg-red-600"@, "text-white"@, "#ffffff"@)
    } else if i == 20 {
        ("#2563eb"@, "bg-blue-600"@, "text-white"@, "#ffffff"@)
    } else if i == 21 {
        ("#16a34a"@, "bg-green-600"@, "text-white"@, "#ffffff"@)
    } else if i == 22 {
        ("#9333ea"@, "bg-purple-600"@, "text-white"@, "#ffffff"@)
    } else if i == 23 {
        ("#c2410c"@, "bg-orange-600"@, "text-white"@, "#ffffff"@)
    } else {
        ("#0891b2"@, "bg-cyan-600"@, "text-white"@, "#ffffff"@)
    }
}

/// Colour `i` of the project palette.
pub fn palette_entry(i: usize) -> (r: (&'static str, &'static str, &'static str, &'static str))
    requires
        i < PALETTE_SIZE,
    ensures
        (r.0@, r.1@, r.2@, r.3@) == palette_spec(i as int),
{
    if i == 0 {
        ("#3b82f6", "bg-blue-500", "text-white", "#ffffff")
    } else if i == 1 {
        ("#ef4444", "bg-red-500", "text-white", "#ffffff")
    } else if i == 2 {
        ("#22c55e", "bg-green-500", "text-white", "#ffffff")
    } else if i == 3 {
        ("#eab308", "bg-yellow-500", "text-slate-900", "#0f172a")
    } else if i == 4 {
        ("#a855f7", "bg-purple-500", "text-white", "#ffffff")
    } else if i == 5 {
        ("#f97316", "bg-orange-500", "text-white", "#ffffff")
    } else if i == 6 {
        ("#06b6d4", "bg-cyan-500", "text-slate-900", "#0f172a")
    } else if i == 7 {
        ("#ec4899", "bg-pink-500", "text-white", "#ffffff")
    } else if i == 8 {
        ("#6366f1", "bg-indigo-500", "text-white", "#ffffff")
    } else if i == 9 {
        ("#14b8a6", "bg-teal-500", "text-white", "#ffffff")
    } else if i == 10 {
        ("#84cc16", "bg-lime-500", "text-slate-900", "#0f172a")
    } else if i == 11 {
        ("#f43f5e", "bg-rose-500", "text-white", "#ffffff")
    } else if i == 12 {
        ("#8b5cf6", "bg-violet-500", "text-white", "#ffffff")
    } else if i == 13 {
        ("#0ea5e9", "bg-sky-500", "text-slate-900", "#0f172a")
    } else if i == 14 {
        ("#10b981", "bg-emerald-500", "text-white", "#ffffff")
    } else if i == 15 {
        ("#f59e0b", "bg-amber-500", "text-slate-900", "#0f172a")
    } else if i == 16 {
        ("#d946ef", "bg-fuchsia-500", "text-white", "#ffffff")
    } else if i == 17 {
        ("#64748b", "bg-slate-500", "text-white", "#ffffff")
    } else if i == 18 {
        ("#71717a", "bg-zinc-500", "text-white", "#ffffff")
    } else if i == 19 {
        ("#dc2626", "bg-red-600", "text-white", "#ffffff")
    } else if i == 20 {
        ("#2563eb", "bg-blue-600", "text-white", "#ffffff")
    } else if i == 21 {
        ("#16a34a", "bg-green-600", "text-white", "#ffffff")
    } else if i == 22 {
        ("#9333ea", "bg-purple-600", "text-white", "#ffffff")
    } else if i == 23 {
        ("#c2410c", "bg-orange-600", "text-white", "#ffffff")
    } else {
        ("#0891b2", "bg-cyan-600", "text-white", "#ffffff")
    }
}

/// The badge a weekend-including allocation shows after its label.
pub open spec fn weekend_badge(include_weekend: bool) -> Seq<char> {
    if include_weekend {
        " <span class='ml-2 inline-flex items-center rounded bg-white/80 px-1.5 py-0.5 text-[10px] font-semibold text-slate-900'>Weekend</span>"@
    } else {
        ""@
    }
}

/// CSS classes of a bar in palette slot `slot`.
pub open spec fn bar_class(slot: int) -> Seq<char> {
    palette_spec(slot).1 + " "@ + palette_spec(slot).2
}

/// Label markup of an allocation bar.
pub open spec fn bar_content(a: Allocation, slot: int) -> Seq<char> {
    "<div class='allocation-item "@ + bar_class(slot) + "'>"@ + a.project_name@ + " ("@
        + a.percentage_label@ + "%)"@ + weekend_badge(a.include_weekend) + " </div>"@
}

/// Inline style of a bar in palette slot `slot`.
pub open spec fn bar_style(slot: int) -> Seq<char> {
    "background-color: "@ + palette_spec(slot).0 + "; border-color: "@ + palette_spec(slot).0 + "; color: "@
        + palette_spec(slot).3
}

/// An editable bar of allocation `a` on its resource's row.
pub open spec fn bar_item(a: Allocation, slot: int, id: Seq<char>, start: Seq<char>, end: Seq<char>) -> ItemView {
    ItemView {
        id: id,
        group: Some(uuid_hyphenated(a.resource_id)),
        content: bar_content(a, slot),
        start: start,
        end: Some(end),
        class_name: Some(bar_class(slot)),
        style: Some(bar_style(slot)),
        editable: Some(true),
        item_type: None,
    }
}

/// The bars of one allocation. A weekend-including allocation is one bar
/// from its start to the day after its end (the end as given when it is not
/// a date). Otherwise there is one bar per run of working days, with id
/// `<allocation id>-<n>`, `n` counting the bars placed before it; an
/// allocation whose dates do not parse has no bars.
pub open spec fn allocation_bars(a: Allocation, slot: int, holidays: Seq<Seq<char>>, base: int) -> Seq<ItemView> {
    if a.include_weekend {
        let end = match inclusive_end_spec(a.end_date@) {
            Some(t) => t,
            None => a.end_date@,
        };
        seq![bar_item(a, slot, uuid_hyphenated(a.id), a.start_date@, end)]
    } else {
        match working_periods_spec(a.start_date@, a.end_date@, holidays) {
            Some(ps) => Seq::new(ps.len(), |k: int| bar_item(a, slot,
                uuid_hyphenated(a.id) + "-"@ + int_text(base + k), ps[k].0, ps[k].1)),
            None => Seq::empty(),
        }
    }
}

/// The allocation's dates leave room for the day after its last day.
pub open spec fn allocation_dates_fit(a: Allocation) -> bool {
    if a.include_weekend {
        !(iso_date_parse(a.end_date@) matches Some(e) && e >= MAX_DAY)
    } else {
        iso_date_parse(a.start_date@) is Some ==> !(iso_date_parse(a.end_date@) matches Some(e) && e >= MAX_DAY)
    }
}

/// The project names of the allocations, in order.
pub open spec fn project_names(allocs: Seq<Allocation>) -> Seq<Seq<char>> {
    allocs.map_values(|a: Allocation| a.project_name@)
}

/// Palette slot of allocation `i`: its project's place among the projects in
/// order of first appearance, wrapping around the palette.
pub open spec fn project_slot(allocs: Seq<Allocation>, i: int) -> int {
    first_seen(project_names(allocs)).index_of(allocs[i].project_name@) % (PALETTE_SIZE as int)
}

/// The holiday dates as texts.
pub open spec fn holiday_dates(hols: Seq<Holiday>) -> Seq<Seq<char>> {
    hols.map_values(|h: Holiday| h.date@)
}

/// The bars of the first `n` allocations.
pub open spec fn allocation_bars_upto(allocs: Seq<Allocation>, holidays: Seq<Seq<char>>, n: nat) -> Seq<ItemView>
    decreases n,
{
    if n == 0 {
        Seq::empty()
    } else {
        let p = allocation_bars_upto(allocs, holidays, (n - 1) as nat);
        p + allocation_bars(allocs[n - 1], project_slot(allocs, n - 1), holidays, p.len() as int)
    }
}

/// The grey background span of a holiday, when its date parses.
pub open spec fn holiday_item(h: Holiday) -> Seq<ItemView> {
    match iso_date_parse(h.date@) {
        Some(d) => seq![ItemView {
            id: "holiday-"@ + uuid_hyphenated(h.id),
            group: None,
            content: Seq::empty(),
            start: h.date@,
            end: Some(iso_date_text(d + 1)),
            class_name: Some("holiday-bg"@),
            style: None,
            editable: Some(false),
            item_type: Some("background"@),
        }],
        None => Seq::empty(),
    }
}

/// The holiday spans of the first `n` holidays.
pub open spec fn holiday_items_upto(hols: Seq<Holiday>, n: nat) -> Seq<ItemView>
    decreases n,
{
    if n == 0 {
        Seq::empty()
    } else {
        holiday_items_upto(hols, (n - 1) as nat) + holiday_item(hols[n - 1])
    }
}

/// The whole timeline: the allocation bars in allocation order, then the
/// holiday spans.
pub open spec fn timeline_items_spec(allocs: Seq<Allocation>, hols: Seq<Holiday>) -> Seq<ItemView> {
    allocation_bars_upto(allocs, holiday_dates(hols), allocs.len()) + holiday_items_upto(hols, hols.len())
}

/// A holiday's date leaves room for the day after it.
pub open spec fn holiday_date_fits(h: Holiday) -> bool {
    !(iso_date_parse(h.date@) matches Some(d) && d >= MAX_DAY)
}

/// Label, classes and style of a bar in palette slot `slot`.
fn bar_look(a: &Allocation, slot: usize) -> (r: (String, String, String))
    requires
        slot < PALETTE_SIZE,
    ensures
        r.0@ == bar_content(*a, slot as int),
        r.1@ == bar_class(slot as int),
        r.2@ == bar_style(slot as int),
{
    let (color, bg_class, text_class, text_color) = palette_entry(slot);
    let mut class: Vec<char> = chars_of(bg_class);
    append_str(&mut class, " ");
    append_str(&mut class, text_class);
    let mut content: Vec<char> = chars_of("<div class='allocation-item ");
    append_chars(&mut content, &class);
    append_str(&mut content, "'>");
    append_str(&mut content, a.project_name.as_str());
    append_str(&mut content, " (");
    append_str(&mut content, a.percentage_label.as_str());
    append_str(&mut content, "%)");
    if a.include_weekend {
        append_str(&mut content, " <span class='ml-2 inline-flex items-center rounded bg-white/80 px-1.5 py-0.5 text-[10px] font-semibold text-slate-900'>Weekend</span>");
    } else {
        append_str(&mut content, "");
    }
    append_str(&mut content, " </div>");
    let mut style: Vec<char> = chars_of("background-color: ");
    append_str(&mut style, color);
    append_str(&mut style, "; border-color: ");
    append_str(&mut style, color);
    append_str(&mut style, "; color: ");
    append_str(&mut style, text_color);
    (string_from_chars(&content), string_from_chars(&class), string_from_chars(&style))
}

/// Appends the bars of allocation `a` (palette slot `slot`) to `items`.
fn push_allocation_bars(items: &mut Vec<TimelineItem>, a: &Allocation, slot: usize, dates: &Vec<String>)
    requires
        slot < PALETTE_SIZE,
        allocation_dates_fit(*a),
    ensures
        final(items)@.len() == old(items)@.len()
            + allocation_bars(*a, slot as int, texts_of(dates@), old(items)@.len() as int).len(),
        forall|k: int| 0 <= k < old(items)@.len() ==> #[trigger] final(items)@[k] == old(items)@[k],
        forall|k: int| old(items)@.len() <= k < final(items)@.len() ==> (#[trigger] final(items)@[k])@
            == allocation_bars(*a, slot as int, texts_of(dates@), old(items)@.len() as int)[k - old(items)@.len()],
{
    let ghost base = items@.len() as int;
    let ghost hs = texts_of(dates@);
    let (content, class, style) = bar_look(a, slot);
    let group = uuid_text(a.resource_id);
    if a.include_weekend {
        let end = match inclusive_end_date(a.end_date.as_str()) {
            Some(t) => t,
            None => a.end_date.clone(),
        };
        items.push(TimelineItem {
            id: uuid_text(a.id),
            group: Some(group),
            content: content,
            start: a.start_date.clone(),
            end: Some(end),
            class_name: Some(class),
            style: Some(style),
            editable: Some(true),
            item_type: None,
        });
    } else {
        let periods = allocation_working_periods(a.start_date.as_str(), a.end_date.as_str(), dates);
        proof {
            assert(dates@.map_values(|h: String| h@) =~= hs);
        }
        match periods {
            Some(ps) => {
                let ghost w = working_periods_spec(a.start_date@, a.end_date@, hs)->Some_0;
                let ghost bars = allocation_bars(*a, slot as int, hs, base);
                let ghost start_items = items@;
                let id_text = uuid_text(a.id);
                let mut k: usize = 0;
                while k < ps.len()
                    invariant
                        k <= ps@.len() == w.len(),
                        bars.len() == w.len(),
                        bars == allocation_bars(*a, slot as int, hs, base),
                        !a.include_weekend,
                        working_periods_spec(a.start_date@, a.end_date@, hs) == Some(w),
                        forall|j: int| 0 <= j < ps@.len() ==> (#[trigger] ps@[j]).0@ == w[j].0 && ps@[j].1@ == w[j].1,
                        base == start_items.len(),
                        items@.len() == base + k,
                        id_text@ == uuid_hyphenated(a.id),
                        content@ == bar_content(*a, slot as int),
                        class@ == bar_class(slot as int),
                        style@ == bar_style(slot as int),
                        group@ == uuid_hyphenated(a.resource_id),
                        forall|j: int| 0 <= j < base ==> #[trigger] items@[j] == start_items[j],
                        forall|j: int| base <= j < items@.len() ==> (#[trigger] items@[j])@ == bars[j - base],
                    decreases ps.len() - k,
                {
                    let n = usize_text(items.len());
                    let mut id: Vec<char> = chars_of(id_text.as_str());
                    append_str(&mut id, "-");
                    append_str(&mut id, n.as_str());
                    let (ref s, ref e) = ps[k];
                    items.push(TimelineItem {
                        id: string_from_chars(&id),
                        group: Some(group.clone()),
                        content: content.clone(),
                        start: s.clone(),
                        end: Some(e.clone()),
                        class_name: Some(class.clone()),
                        style: Some(style.clone()),
                        editable: Some(true),
                        item_type: None,
                    });
                    proof {
                        let j = base + k;
                        assert(items@[j]@ == bars[j - base]);
                    }
                    k = k + 1;
                }
            },
            None => {},
        }
    }
}

/// The items of the allocation timeline: for each allocation in order its
/// bars, coloured by its project's place among the projects in order of
/// first appearance, then a background span for each holiday whose date
/// parses.
pub fn timeline_items(allocations: &Vec<Allocation>, holidays: &Vec<Holiday>) -> (r: Vec<TimelineItem>)
    requires
        forall|i: int| 0 <= i < allocations@.len() ==> allocation_dates_fit(#[trigger] allocations@[i]),
        forall|i: int| 0 <= i < holidays@.len() ==> holiday_date_fits(#[trigger] holidays@[i]),
    ensures
        r@.len() == timeline_items_spec(allocations@, holidays@).len(),
        forall|k: int| 0 <= k < r@.len() ==> (#[trigger] r@[k])@ == timeline_items_spec(allocations@, holidays@)[k],
{
    let mut dates: Vec<String> = Vec::new();
    let mut i: usize = 0;
    while i < holidays.len()
        invariant
            i <= holidays@.len(),
            dates@.len() == i,
            forall|j: int| 0 <= j < i ==> (#[trigger] dates@[j])@ == holidays@[j].date@,
        decreases holidays.len() - i,
    {
        dates.push(holidays[i].date.clone());
        i = i + 1;
    }
    let ghost hs = holiday_dates(holidays@);
    proof {
        assert(texts_of(dates@) =~= hs);
    }
    let mut names: Vec<String> = Vec::new();
    let mut i: usize = 0;
    while i < allocations.len()
        invariant
            i <= allocations@.len(),
            names@.len() == i,
            forall|j: int| 0 <= j < i ==> (#[trigger] names@[j])@ == allocations@[j].project_name@,
        decreases allocations.len() - i,
    {
        names.push(allocations[i].project_name.clone());
        i = i + 1;
    }
    let ghost fs = first_seen(project_names(allocations@));
    proof {
        assert(texts_of(names@) =~= project_names(allocations@));
        lemma_first_seen(project_names(allocations@));
    }
    let slots = project_color_slots(&names, PALETTE_SIZE);
    let mut items: Vec<TimelineItem> = Vec::new();
    let mut i: usize = 0;
    while i < allocations.len()
        invariant
            i <= allocations@.len() == slots@.len(),
            hs == holiday_dates(holidays@),
            texts_of(dates@) == hs,
            fs == first_seen(project_names(allocations@)),
            forall|j: int| 0 <= j < allocations@.len() ==> fs.contains(#[trigger] project_names(allocations@)[j]),
            forall|j: int, k: int| #![trigger slots@[j], fs[k]]
                0 <= j < slots@.len() && 0 <= k < fs.len() && fs[k] == names@[j]@ ==> slots@[j] == k % (PALETTE_SIZE as int),
            names@.len() == allocations@.len(),
            forall|j: int| 0 <= j < names@.len() ==> (#[trigger] names@[j])@ == allocations@[j].project_name@,
            forall|j: int| 0 <= j < allocations@.len() ==> allocation_dates_fit(#[trigger] allocations@[j]),
            items@.len() == allocation_bars_upto(allocations@, hs, i as nat).len(),
            forall|k: int| 0 <= k < items@.len() ==> (#[trigger] items@[k])@ == allocation_bars_upto(allocations@, hs, i as nat)[k],
        decreases allocations.len() - i,
    {
        let slot = slots[i];
        proof {
            let pn = project_names(allocations@);
            assert(pn[i as int] == allocations@[i as int].project_name@);
            assert(fs.contains(pn[i as int]));
            let k = fs.index_of(pn[i as int]);
            assert(fs[k] == names@[i as int]@);
            assert(slot == project_slot(allocations@, i as int));
        }
        let ghost before = items@;
        push_allocation_bars(&mut items, &allocations[i], slot, &dates);
        proof {
            let prev = allocation_bars_upto(allocations@, hs, i as nat);
            let nxt = allocation_bars_upto(allocations@, hs, (i + 1) as nat);
            assert(nxt == prev + allocation_bars(allocations@[i as int], project_slot(allocations@, i as int), hs, prev.len() as int));
            assert forall|k: int| 0 <= k < items@.len() implies (#[trigger] items@[k])@ == nxt[k] by {
                if k < before.len() {
                    assert(items@[k] == before[k]);
                }
            }
        }
        i = i + 1;
    }
    let ghost bars = allocation_bars_upto(allocations@, hs, allocations@.len());
    let mut j: usize = 0;
    while j < holidays.len()
        invariant
            j <= holidays@.len(),
            bars == allocation_bars_upto(allocations@, hs, allocations@.len()),
            forall|i: int| 0 <= i < holidays@.len() ==> holiday_date_fits(#[trigger] holidays@[i]),
            items@.len() == bars.len() + holiday_items_upto(holidays@, j as nat).len(),
            forall|k: int| 0 <= k < items@.len() ==> (#[trigger] items@[k])@ == (bars + holiday_items_upto(holidays@, j as nat))[k],
        decreases holidays.len() - j,
    {
        let h = &holidays[j];
        let ghost before = items@;
        proof {
            assert(holiday_date_fits(holidays@[j as int]));
        }
        match holiday_span(h.date.as_str()) {
            Some((s, e)) => {
                items.push(TimelineItem {
                    id: cat("holiday-", uuid_text(h.id).as_str()),
                    group: None,
                    content: String::new(),
                    start: s,
                    end: Some(e),
                    class_name: Some(owned("holiday-bg")),
                    style: None,
                    editable: Some(false),
                    item_type: Some(owned("background")),
                });
            },
            None => {},
        }
        proof {
            let nxt = bars + holiday_items_upto(holidays@, (j + 1) as nat);
            assert(holiday_items_upto(holidays@, (j + 1) as nat) == holiday_items_upto(holidays@, j as nat) + holiday_item(holidays@[j as int]));
            assert forall|k: int| 0 <= k < items@.len() implies (#[trigger] items@[k])@ == nxt[k] by {
                if k < before.len() {
                    assert(items@[k] == before[k]);
                }
            }
        }
        j = j + 1;
    }
    items
}

/// The distinct resources of the allocations in order of first appearance,
/// each with the resource name of its first allocation.
pub open spec fn resource_entries(allocs: Seq<Allocation>) -> Seq<(u128, Seq<char>)>
    decreases allocs.len(),
{
    if allocs.len() == 0 {
        Seq::empty()
    } else {
        let r = resource_entries(allocs.drop_last());
        let a = allocs.last();
        if exists|k: int| 0 <= k < r.len() && (#[trigger] r[k]).0 == a.resource_id {
            r
        } else {
            r.push((a.resource_id, a.resource_name@))
        }
    }
}

/// `groups` holds the resource entries reordered by `perm`
/// (`groups[k]` shows `entries[perm[k]]`), sorted by name, with equal names
/// kept in order of first appearance.
pub open spec fn groups_by_name(entries: Seq<(u128, Seq<char>)>, groups: Seq<TimelineGroup>, perm: Seq<int>) -> bool {
    &&& perm.len() == entries.len() == groups.len()
    &&& forall|k: int| 0 <= k < perm.len() ==> 0 <= #[trigger] perm[k] < entries.len()
    &&& forall|a: int, b: int| 0 <= a < b < perm.len() ==> #[trigger] perm[a] != #[trigger] perm[b]
    &&& forall|k: int| 0 <= k < groups.len() ==> (#[trigger] groups[k]).id@ == uuid_hyphenated(entries[perm[k]].0)
        && groups[k].content@ == entries[perm[k]].1 && groups[k].class_name is None && groups[k].style is None
    &&& forall|a: int, b: int| 0 <= a < b < groups.len() ==> seq_lt((#[trigger] groups[a]).content@, (#[trigger] groups[b]).content@)
        || (groups[a].content@ == groups[b].content@ && perm[a] < perm[b])
}

/// The view of a list of (id, name) pairs.
pub open spec fn entry_views(v: Seq<(u128, String)>) -> Seq<(u128, Seq<char>)> {
    v.map_values(|e: (u128, String)| (e.0, e.1@))
}

/// Collects the distinct resources of the allocations, in order of first
/// appearance, with the name of their first allocation.
fn collect_resources(allocations: &Vec<Allocation>) -> (r: Vec<(u128, String)>)
    ensures
        entry_views(r@) == resource_entries(allocations@),
{
    let mut out: Vec<(u128, String)> = Vec::new();
    let mut i: usize = 0;
    while i < allocations.len()
        invariant
            i <= allocations@.len(),
            entry_views(out@) == resource_entries(allocations@.take(i as int)),
        decreases allocations.len() - i,
    {
        let a = &allocations[i];
        let ghost ev = entry_views(out@);
        proof {
            assert(allocations@.take(i + 1).drop_last() =~= allocations@.take(i as int));
            assert(allocations@.take(i + 1).last() == allocations@[i as int]);
        }
        let mut p: usize = 0;
        while p < out.len()
            invariant
                p <= out@.len(),
                ev == entry_views(out@),
                forall|k: int| 0 <= k < p ==> ev[k].0 != a.resource_id,
            ensures
                p <= out@.len(),
                forall|k: int| 0 <= k < p ==> ev[k].0 != a.resource_id,
                p < out@.len() ==> ev[p as int].0 == a.resource_id,
            decreases out.len() - p,
        {
            if out[p].0 == a.resource_id {
                break;
            }
            p = p + 1;
        }
        if p == out.len() {
            proof {
                assert(!(exists|k: int| 0 <= k < ev.len() && (#[trigger] ev[k]).0 == a.resource_id));
            }
            out.push((a.resource_id, a.resource_name.clone()));
            proof {
                assert(entry_views(out@) =~= ev.push((a.resource_id, a.resource_name@)));
            }
        } else {
            proof {
                assert(ev[p as int].0 == a.resource_id);
            }
        }
        i = i + 1;
    }
    assert(allocations@.take(allocations@.len() as int) =~= allocations@);
    out
}

/// The rows of the allocation timeline: one per distinct resource, showing
/// the resource name of its first allocation, ordered by name (resources
/// with the same name in order of first appearance).
pub fn timeline_groups(allocations: &Vec<Allocation>) -> (r: Vec<TimelineGroup>)
    ensures
        exists|perm: Seq<int>| groups_by_name(resource_entries(allocations@), r@, perm),
{
    let mut entries = collect_resources(allocations);
    let ghost orig = entry_views(entries@);
    let n = entries.len();
    let ghost mut perm: Seq<int> = Seq::new(n as nat, |k: int| k);
    let mut i: usize = 0;
    while i < n
        invariant
            i <= n == entries@.len() == orig.len(),
            orig == resource_entries(allocations@),
            perm.len() == n,
            forall|k: int| i <= k < n ==> #[trigger] perm[k] == k,
            forall|k: int| 0 <= k < i ==> 0 <= #[trigger] perm[k] < i,
            forall|a: int, b: int| 0 <= a < b < n ==> #[trigger] perm[a] != #[trigger] perm[b],
            forall|k: int| 0 <= k < n ==> #[trigger] entry_views(entries@)[k] == orig[perm[k]],
            forall|a: int, b: int| 0 <= a < b < i ==> seq_lt((#[trigger] entries@[a]).1@, (#[trigger] entries@[b]).1@)
                || (entries@[a].1@ == entries@[b].1@ && perm[a] < perm[b]),
        decreases n - i,
    {
        let ghost prev = entries@;
        let x = entries.remove(i);
        let ghost before = entries@;
        let xc = chars_of(x.1.as_str());
        let mut p: usize = 0;
        while p < i
            invariant
                p <= i < n,
                entries@ == before,
                before.len() == n - 1,
                xc@ == x.1@,
                forall|k: int| 0 <= k < p ==> !seq_lt(x.1@, (#[trigger] before[k]).1@),
            ensures
                p <= i,
                forall|k: int| 0 <= k < p ==> !seq_lt(x.1@, (#[trigger] before[k]).1@),
                p < i ==> seq_lt(x.1@, before[p as int].1@),
            decreases i - p,
        {
            let pc = chars_of(entries[p].1.as_str());
            if chars_lt(&xc, &pc) {
                break;
            }
            p = p + 1;
        }
        entries.insert(p, x);
        proof {
            let old_perm = perm;
            let np = old_perm.remove(i as int).insert(p as int, i as int);
            let c = entries@;
            assert forall|k: int| i + 1 <= k < n implies #[trigger] np[k] == k by {
                assert(np[k] == old_perm[k]);
            }
            assert forall|k: int| 0 <= k < i + 1 implies 0 <= #[trigger] np[k] < i + 1 by {
                if k < p { assert(np[k] == old_perm[k]); }
                else if k > p { assert(np[k] == old_perm[k - 1]); }
            }
            assert forall|a: int, b: int| 0 <= a < b < n implies #[trigger] np[a] != #[trigger] np[b] by {
                let oa = if a < p { a } else if a == p { i as int } else if a <= i { a - 1 } else { a };
                let ob = if b < p { b } else if b == p { i as int } else if b <= i { b - 1 } else { b };
                assert(np[a] == old_perm[oa]);
                assert(np[b] == old_perm[ob]);
                assert(oa != ob);
                if oa < ob { assert(old_perm[oa] != old_perm[ob]); } else { assert(old_perm[ob] != old_perm[oa]); }
            }
            assert forall|k: int| 0 <= k < n implies #[trigger] entry_views(c)[k] == orig[np[k]] by {
                assert(entry_views(c)[k] == (c[k].0, c[k].1@));
                if k < p {
                    assert(c[k] == prev[k]);
                    assert(entry_views(prev)[k] == orig[old_perm[k]]);
                    assert(np[k] == old_perm[k]);
                } else if k == p {
                    assert(c[k] == prev[i as int]);
                    assert(entry_views(prev)[i as int] == orig[old_perm[i as int]]);
                    assert(np[k] == i);
                } else if k <= i {
                    assert(c[k] == prev[k - 1]);
                    assert(entry_views(prev)[k - 1] == orig[old_perm[k - 1]]);
                    assert(np[k] == old_perm[k - 1]);
                } else {
                    assert(c[k] == prev[k]);
                    assert(entry_views(prev)[k] == orig[old_perm[k]]);
                    assert(np[k] == old_perm[k]);
                }
            }
            assert forall|a: int, b: int| 0 <= a < b < i + 1 implies seq_lt((#[trigger] c[a]).1@, (#[trigger] c[b]).1@)
                || (c[a].1@ == c[b].1@ && np[a] < np[b]) by {
                if a < p && b < p {
                    assert(c[a] == before[a] && c[b] == before[b]);
                } else if a < p && b == p {
                    assert(!seq_lt(x.1@, before[a].1@));
                    lemma_seq_lt_total(x.1@, before[a].1@);
                    assert(np[a] == old_perm[a]);
                } else if a < p && b > p {
                    assert(c[b] == before[b - 1]);
                } else if a == p {
                    assert(c[b] == before[b - 1]);
                    assert(seq_lt(x.1@, before[p as int].1@));
                    if b - 1 > p {
                        let y = before[p as int].1@;
                        let z = before[b - 1].1@;
                        if y != z {
                            lemma_seq_lt_transitive(x.1@, y, z);
                        }
                    }
                } else {
                    assert(c[a] == before[a - 1]);
                    assert(c[b] == before[b - 1]);
                }
            }
            perm = np;
        }
        i = i + 1;
    }
    let mut groups: Vec<TimelineGroup> = Vec::new();
    let mut k: usize = 0;
    while k < entries.len()
        invariant
            k <= entries@.len() == n,
            groups@.len() == k,
            forall|j: int| 0 <= j < k ==> (#[trigger] groups@[j]).id@ == uuid_hyphenated(entries@[j].0)
                && groups@[j].content@ == entries@[j].1@ && groups@[j].class_name is None && groups@[j].style is None,
        decreases entries.len() - k,
    {
        groups.push(TimelineGroup {
            id: uuid_text(entries[k].0),
            content: entries[k].1.clone(),
            class_name: None,
            style: None,
        });
        k = k + 1;
    }
    proof {
        assert forall|j: int| 0 <= j < groups@.len() implies (#[trigger] groups@[j]).id@ == uuid_hyphenated(orig[perm[j]].0)
            && groups@[j].content@ == orig[perm[j]].1 by {
            assert(entry_views(entries@)[j] == orig[perm[j]]);
        }
        assert forall|a: int, b: int| 0 <= a < b < groups@.len() implies seq_lt((#[trigger] groups@[a]).content@, (#[trigger] groups@[b]).content@)
            || (groups@[a].content@ == groups@[b].content@ && perm[a] < perm[b]) by {
            assert(seq_lt(entries@[a].1@, entries@[b].1@) || (entries@[a].1@ == entries@[b].1@ && perm[a] < perm[b]));
        }
        assert(groups_by_name(orig, groups@, perm));
    }
    groups
}


/// Does the date text parse to the last day chrono can hold (or later)?
fn ends_on_last_day(date: &String) -> (r: bool)
    ensures
        r == (iso_date_parse(date@) matches Some(e) && e >= MAX_DAY),
{
    match parse_iso_date(date.as_str()) {
        Some(e) => e >= MAX_DAY,
        None => false,
    }
}

/// Does the allocation's end leave room for the day after its last day?
fn allocation_fits(a: &Allocation) -> (r: bool)
    ensures
        r == allocation_dates_fit(*a),
{
    if a.include_weekend {
        !ends_on_last_day(&a.end_date)
    } else {
        match parse_iso_date(a.start_date.as_str()) {
            Some(_) => !ends_on_last_day(&a.end_date),
            None => true,
        }
    }
}

/// The rows and items of the allocation timeline, or `None` when some
/// allocation or holiday ends on the last day chrono can hold (there is no
/// day after it to end a bar or span on).
pub fn checked_timeline(allocations: &Vec<Allocation>, holidays: &Vec<Holiday>) -> (r: Option<(Vec<TimelineGroup>, Vec<TimelineItem>)>)
    ensures
        r is None <==> (exists|i: int| 0 <= i < allocations@.len() && !allocation_dates_fit(#[trigger] allocations@[i]))
            || (exists|i: int| 0 <= i < holidays@.len() && !holiday_date_fits(#[trigger] holidays@[i])),
        r matches Some((groups, items)) ==> {
            &&& exists|perm: Seq<int>| groups_by_name(resource_entries(allocations@), groups@, perm)
            &&& items@.len() == timeline_items_spec(allocations@, holidays@).len()
            &&& forall|k: int| 0 <= k < items@.len() ==> (#[trigger] items@[k])@ == timeline_items_spec(allocations@, holidays@)[k]
        },
{
    let mut i: usize = 0;
    while i < allocations.len()
        invariant
            i <= allocations@.len(),
            forall|j: int| 0 <= j < i ==> allocation_dates_fit(#[trigger] allocations@[j]),
        decreases allocations.len() - i,
    {
        if !allocation_fits(&allocations[i]) {
            return None;
        }
        i = i + 1;
    }
    let mut j: usize = 0;
    while j < holidays.len()
        invariant
            j <= holidays@.len(),
            forall|k: int| 0 <= k < j ==> holiday_date_fits(#[trigger] holidays@[k]),
        decreases holidays.len() - j,
    {
        if ends_on_last_day(&holidays[j].date) {
            assert(!holiday_date_fits(holidays@[j as int]));
            return None;
        }
        j = j + 1;
    }
    let groups = timeline_groups(allocations);
    let items = timeline_items(allocations, holidays);
    let r = Some((groups, items));
    assert(r->Some_0.0 == groups && r->Some_0.1 == items);
    r
}

} // verus!
