use xynergy::timeline::{
    working_runs, allocation_working_periods, inclusive_end_date, holiday_span, holiday_axis_css,
    first_appearance_ranks, project_color_slots,
};
use xynergy::allocations::{Allocation, Holiday, timeline_items, checked_timeline, timeline_groups, palette_entry, PALETTE_SIZE};

fn strings(v: &[&str]) -> Vec<String> {
    v.iter().map(|s| s.to_string()).collect()
}

const A: u128 = 0x11111111_1111_4111_8111_111111111111;
const B: u128 = 0x22222222_2222_4222_8222_222222222222;
const R1: u128 = 0x33333333_3333_4333_8333_333333333333;
const R2: u128 = 0x44444444_4444_4444_8444_444444444444;
const H: u128 = 0x55555555_5555_4555_8555_555555555555;

fn allocation(id: u128, resource: u128, resource_name: &str, project: &str, start: &str, end: &str, pct: &str, weekend: bool) -> Allocation {
    Allocation {
        id,
        project_id: 7,
        resource_id: resource,
        start_date: start.to_string(),
        end_date: end.to_string(),
        percentage_label: pct.to_string(),
        project_name: project.to_string(),
        resource_name: resource_name.to_string(),
        include_weekend: weekend,
    }
}

fn holiday(id: u128, date: &str) -> Holiday {
    Holiday { id, name: "Holiday".to_string(), date: date.to_string(), description: None }
}

#[test]
fn working_runs_are_maximal_stretches() {
    assert_eq!(working_runs(&vec![]), vec![]);
    assert_eq!(working_runs(&vec![true, true, false, true, false, false, true]), vec![(0, 1), (3, 3), (6, 6)]);
    assert_eq!(working_runs(&vec![false, false]), vec![]);
}

#[test]
fn working_periods_skip_weekends_and_holidays() {
    let periods = allocation_working_periods("2026-05-21", "2026-05-27", &strings(&["2026-05-26"])).unwrap();
    let got: Vec<(&str, &str)> = periods.iter().map(|(a, b)| (a.as_str(), b.as_str())).collect();
    assert_eq!(got, vec![("2026-05-21", "2026-05-23"), ("2026-05-25", "2026-05-26"), ("2026-05-27", "2026-05-28")]);
    assert_eq!(allocation_working_periods("2026-05-23", "2026-05-24", &vec![]), Some(vec![]));
    assert_eq!(allocation_working_periods("2026-05-28", "2026-05-27", &vec![]), Some(vec![]));
    assert_eq!(allocation_working_periods("bad", "2026-05-27", &vec![]), None);
}

#[test]
fn inclusive_end_and_holiday_span() {
    assert_eq!(inclusive_end_date("2026-12-31"), Some("2027-01-01".to_string()));
    assert_eq!(inclusive_end_date("someday"), Some("someday".to_string()));
    assert_eq!(holiday_span("2028-02-28"), Some(("2028-02-28".to_string(), "2028-02-29".to_string())));
    assert_eq!(holiday_span("2028-02-30"), None);
}

#[test]
fn holiday_axis_css_greys_each_parsed_holiday() {
    let css = holiday_axis_css(&strings(&["2026-05-26", "not-a-date", "2026-12-01"]));
    assert_eq!(
        css,
        ".vis-time-axis .vis-text.vis-minor.vis-day26.vis-may { background-color: rgba(156, 163, 175, 0.35) !important; }\n\
.vis-time-axis .vis-text.vis-minor.vis-day1.vis-december { background-color: rgba(156, 163, 175, 0.35) !important; }\n"
    );
    assert_eq!(holiday_axis_css(&vec![]), "");
}

#[test]
fn projects_take_colours_in_order_of_first_appearance() {
    let names = strings(&["Beta", "Alpha", "Beta", "Gamma", "Alpha"]);
    assert_eq!(first_appearance_ranks(&names), vec![0, 1, 0, 2, 1]);
    assert_eq!(project_color_slots(&names, 2), vec![0, 1, 0, 0, 1]);
    let many: Vec<String> = (0..27).map(|i| format!("P{}", i)).collect();
    let slots = project_color_slots(&many, PALETTE_SIZE);
    assert_eq!(slots[24], 24);
    assert_eq!(slots[25], 0);
    assert_eq!(slots[26], 1);
}

#[test]
fn palette_matches_page_colours() {
    assert_eq!(palette_entry(0), ("#3b82f6", "bg-blue-500", "text-white", "#ffffff"));
    assert_eq!(palette_entry(3), ("#eab308", "bg-yellow-500", "text-slate-900", "#0f172a"));
    assert_eq!(palette_entry(24), ("#0891b2", "bg-cyan-600", "text-white", "#ffffff"));
}

#[test]
fn timeline_items_split_allocations_and_add_holidays() {
    let allocations = vec![
        allocation(A, R1, "Amy", "Atlas", "2026-05-22", "2026-05-24", "50", true),
        allocation(B, R2, "Zed", "Beacon", "2026-05-21", "2026-05-27", "100", false),
    ];
    let holidays = vec![holiday(H, "2026-05-26"), holiday(7, "bogus")];
    let items = timeline_items(&allocations, &holidays);
    assert_eq!(items.len(), 5);

    let a = &items[0];
    assert_eq!(a.id, uuid_text(A));
    assert_eq!(a.group, Some(uuid_text(R1)));
    assert_eq!(a.start, "2026-05-22");
    assert_eq!(a.end, Some("2026-05-25".to_string()));
    assert_eq!(
        a.content,
        "<div class='allocation-item bg-blue-500 text-white'>Atlas (50%) <span class='ml-2 inline-flex items-center rounded bg-white/80 px-1.5 py-0.5 text-[10px] font-semibold text-slate-900'>Weekend</span> </div>"
    );
    assert_eq!(a.class_name, Some("bg-blue-500 text-white".to_string()));
    assert_eq!(a.style, Some("background-color: #3b82f6; border-color: #3b82f6; color: #ffffff".to_string()));
    assert_eq!(a.editable, Some(true));
    assert_eq!(a.item_type, None);

    let spans: Vec<(String, String, Option<String>)> =
        items[1..4].iter().map(|i| (i.id.clone(), i.start.clone(), i.end.clone())).collect();
    let b = uuid_text(B);
    assert_eq!(
        spans,
        vec![
            (format!("{}-1", b), "2026-05-21".to_string(), Some("2026-05-23".to_string())),
            (format!("{}-2", b), "2026-05-25".to_string(), Some("2026-05-26".to_string())),
            (format!("{}-3", b), "2026-05-27".to_string(), Some("2026-05-28".to_string())),
        ]
    );
    assert_eq!(items[1].content, "<div class='allocation-item bg-red-500 text-white'>Beacon (100%) </div>");
    assert_eq!(items[1].style, Some("background-color: #ef4444; border-color: #ef4444; color: #ffffff".to_string()));

    let h = &items[4];
    assert_eq!(h.id, format!("holiday-{}", uuid_text(H)));
    assert_eq!(h.group, None);
    assert_eq!(h.content, "");
    assert_eq!(h.start, "2026-05-26");
    assert_eq!(h.end, Some("2026-05-27".to_string()));
    assert_eq!(h.class_name, Some("holiday-bg".to_string()));
    assert_eq!(h.style, None);
    assert_eq!(h.editable, Some(false));
    assert_eq!(h.item_type, Some("background".to_string()));
}

#[test]
fn timeline_items_keep_unparseable_weekend_end_and_skip_unparseable_split() {
    let allocations = vec![
        allocation(A, R1, "Amy", "Atlas", "2026-05-22", "open", "10", true),
        allocation(B, R1, "Amy", "Atlas", "later", "2026-05-27", "10", false),
    ];
    let items = timeline_items(&allocations, &vec![]);
    assert_eq!(items.len(), 1);
    assert_eq!(items[0].end, Some("open".to_string()));
}

#[test]
fn timeline_groups_are_distinct_resources_by_name() {
    let allocations = vec![
        allocation(A, R2, "Zed", "Atlas", "2026-05-22", "2026-05-24", "50", true),
        allocation(B, R1, "Amy", "Beacon", "2026-05-21", "2026-05-27", "100", false),
        allocation(9, R2, "Zed Renamed", "Beacon", "2026-05-21", "2026-05-27", "100", false),
    ];
    let groups = timeline_groups(&allocations);
    let got: Vec<(String, String)> = groups.iter().map(|g| (g.id.clone(), g.content.clone())).collect();
    assert_eq!(got, vec![(uuid_text(R1), "Amy".to_string()), (uuid_text(R2), "Zed".to_string())]);
    assert!(groups.iter().all(|g| g.class_name.is_none() && g.style.is_none()));
    assert!(timeline_groups(&vec![]).is_empty());

}

#[test]
fn timeline_item_ids_are_unique() {
    let allocations = vec![
        allocation(A, R1, "Amy", "Atlas", "2026-05-01", "2026-05-31", "50", false),
        allocation(B, R2, "Zed", "Beacon", "2026-05-04", "2026-05-29", "100", false),
        allocation(9, R2, "Zed", "Beacon", "2026-05-04", "2026-05-06", "100", true),
    ];
    let holidays = vec![holiday(H, "2026-05-14"), holiday(8, "2026-05-26")];
    let items = timeline_items(&allocations, &holidays);
    let mut ids: Vec<String> = items.iter().map(|i| i.id.clone()).collect();
    let n = ids.len();
    assert!(n > 10);
    ids.sort();
    ids.dedup();
    assert_eq!(ids.len(), n);
}

fn uuid_text(u: u128) -> String {
    uuid::Uuid::from_u128(u).to_string()
}

#[test]
fn checked_timeline_refuses_dates_past_the_calendar() {
    let at_edge = vec![allocation(A, R1, "Amy", "Atlas", "2026-05-22", "+262142-12-31", "50", true)];
    assert!(checked_timeline(&at_edge, &vec![]).is_none());
    let allocations = vec![allocation(A, R1, "Amy", "Atlas", "2026-05-22", "2026-05-24", "50", true)];
    assert!(checked_timeline(&allocations, &vec![holiday(H, "+262142-12-31")]).is_none());
    let holidays = vec![holiday(H, "2026-05-26")];
    let (groups, items) = checked_timeline(&allocations, &holidays).unwrap();
    assert_eq!(groups.len(), 1);
    assert_eq!(groups[0].id, uuid_text(R1));
    let plain = timeline_items(&allocations, &holidays);
    assert_eq!(items.len(), plain.len());
    for (a, b) in items.iter().zip(plain.iter()) {
        assert_eq!((&a.id, &a.start, &a.end), (&b.id, &b.start, &b.end));
    }
}
