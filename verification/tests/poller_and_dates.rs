use xynergy::poller::{DashboardPoller, FailureAction};
use xynergy::value_map::{ValueMap, compute_changed_keys};
use xynergy::dates::{MIN_DAY, MAX_DAY, offset_range_iso, TrendRangePreset};
use xynergy::audit::{ReportFilters, parsed_filter_dates};
use xynergy::ids::valid_resource_id;
use xynergy::requests::{required_uuid, record_path};
use xynergy::timeline::allocation_working_periods;
use chrono::{Datelike, NaiveDate};

fn day_numbers(start: &str, end: &str) -> Result<(i32, i32), String> {
    parsed_filter_dates(&ReportFilters {
        report_type: "access_logs".to_string(),
        start_date: start.to_string(),
        end_date: end.to_string(),
        user_id: String::new(),
        action_type: String::new(),
    })
}

fn chrono_day(y: i32, m: u32, d: u32) -> i32 {
    NaiveDate::from_ymd_opt(y, m, d).unwrap().num_days_from_ce()
}

fn map(entries: &[(&str, &str)]) -> ValueMap {
    let mut m = ValueMap::new();
    for (k, v) in entries {
        m.insert(k.to_string(), v.to_string());
    }
    m
}

#[test]
fn value_map_insert_replaces_and_counts_keys() {
    let mut m = map(&[("a", "1"), ("b", "2")]);
    assert_eq!(m.len(), 2);
    m.insert("a".to_string(), "3".to_string());
    assert_eq!(m.len(), 2);
    assert_eq!(m.get(&"a".to_string()), Some("3".to_string()));
    assert_eq!(m.get(&"z".to_string()), None);
    assert!(m.contains_key(&"b".to_string()));
    let mut keys = m.keys();
    keys.sort();
    assert_eq!(keys, vec!["a".to_string(), "b".to_string()]);
}

#[test]
fn changed_keys_are_new_or_different_values() {
    let prev = map(&[("a", "1"), ("b", "2"), ("gone", "x")]);
    let next = map(&[("a", "1"), ("b", "3"), ("new", "y")]);
    let mut changed = compute_changed_keys(&prev, &next);
    changed.sort();
    assert_eq!(changed, vec!["b".to_string(), "new".to_string()]);
    assert!(compute_changed_keys(&next, &next).is_empty());
}

#[test]
fn poller_highlights_only_from_the_second_snapshot() {
    let mut p = DashboardPoller::initial();
    assert!(p.loading);
    assert!(p.on_auth_change(true));
    assert!(!p.on_auth_change(true));
    let id = p.start_request();
    assert_eq!(id, 1);
    assert!(!p.should_poll());
    let first = p.on_success(id, map(&[("a", "1")])).unwrap();
    assert!(first.is_empty());
    assert!(p.should_poll());
    let id2 = p.start_request();
    let second = p.on_success(id2, map(&[("a", "2")])).unwrap();
    assert_eq!(second, vec!["a".to_string()]);
}

#[test]
fn poller_drops_stale_answers() {
    let mut p = DashboardPoller::initial();
    let old = p.start_request();
    let fresh = p.start_request();
    assert_ne!(old, fresh);
    assert_eq!(p.on_success(old, map(&[("a", "1")])), None);
    assert!(p.prev_map.is_none());
    assert_eq!(p.on_failure(old, "boom".to_string()), FailureAction::Ignore);
    assert!(p.loading);
    assert_eq!(p.on_failure(fresh, "boom".to_string()), FailureAction::ShowError);
    assert_eq!(p.error, Some("boom".to_string()));
    assert!(!p.loading);
}

#[test]
fn poller_expired_session_and_sign_out() {
    let mut p = DashboardPoller::initial();
    assert!(p.on_auth_change(true));
    let id = p.start_request();
    assert_eq!(p.on_failure(id, "SESSION_EXPIRED".to_string()), FailureAction::SessionExpired);
    assert_eq!(p.error, Some("Your session expired. Please sign in again.".to_string()));
    let inflight = p.start_request();
    assert!(!p.on_auth_change(false));
    assert_eq!(p.on_success(inflight, map(&[("a", "1")])), None);
    assert!(p.on_auth_change(true));
}

#[test]
fn poller_range_change_and_cleanup_forget_history() {
    let mut p = DashboardPoller::initial();
    let id = p.start_request();
    p.on_success(id, map(&[("a", "1")]));
    p.on_range_change();
    assert!(p.prev_map.is_none());
    let id2 = p.start_request();
    assert_eq!(p.on_success(id2, map(&[("a", "2")])), Some(vec![]));
    let inflight = p.start_request();
    let did_initial = p.did_initial_load;
    p.error = Some("earlier".to_string());
    p.on_cleanup();
    assert!(p.loading);
    assert!(p.prev_map.is_none());
    assert_eq!(p.did_initial_load, did_initial);
    assert_eq!(p.error, Some("earlier".to_string()));
    assert_eq!(p.on_success(inflight, map(&[])), None);
}

#[test]
fn request_ids_wrap_around() {
    let mut p = DashboardPoller::initial();
    p.next_request_id = u64::MAX;
    p.latest_request_id = u64::MAX;
    assert_eq!(p.start_request(), 0);
}

#[test]
fn day_numbers_follow_chrono() {
    assert_eq!(day_numbers("2026-05-22", "2026-05-22"), Ok((chrono_day(2026, 5, 22), chrono_day(2026, 5, 22))));
    assert_eq!(day_numbers("0001-01-01", "1970-01-01"), Ok((1, 719_163)));
    assert_eq!(day_numbers("2026-02-30", "2026-03-01").err(), Some("Start date must use YYYY-MM-DD".to_string()));
    assert_eq!(day_numbers("2026-01-01", "22/05/2026").err(), Some("End date must use YYYY-MM-DD".to_string()));
    let d = chrono_day(2026, 5, 22);
    assert_eq!(offset_range_iso(d, 30), ("2026-05-22".to_string(), "2026-06-21".to_string()));
    assert_eq!(offset_range_iso(d, -22), ("2026-05-22".to_string(), "2026-04-30".to_string()));
    assert_eq!(offset_range_iso(d, 90), ("2026-05-22".to_string(), "2026-08-20".to_string()));
}

#[test]
fn day_range_matches_chrono_limits() {
    assert_eq!(NaiveDate::MIN.num_days_from_ce(), MIN_DAY);
    assert_eq!(NaiveDate::MAX.num_days_from_ce(), MAX_DAY);
    let max_text = NaiveDate::MAX.format("%Y-%m-%d").to_string();
    let min_text = NaiveDate::MIN.format("%Y-%m-%d").to_string();
    assert_eq!(offset_range_iso(MAX_DAY - 1, 1).1, max_text);
    assert_eq!(offset_range_iso(MAX_DAY, 1), (max_text.clone(), max_text.clone()));
    assert_eq!(offset_range_iso(MIN_DAY + 1, -1).1, min_text);
    assert_eq!(offset_range_iso(MIN_DAY, -1), (min_text.clone(), min_text.clone()));
    assert_eq!(day_numbers(&max_text, &max_text), Ok((MAX_DAY, MAX_DAY)));
    assert_eq!(NaiveDate::MAX.year(), 262142);
    let (start, end) = TrendRangePreset::CurrentMonth.resolve_from_date(262142, 12, 5);
    assert_eq!(start, NaiveDate::from_ymd_opt(262142, 12, 1).unwrap().format("%Y-%m-%d").to_string());
    // No January of year 262143 exists: the end falls back to the day before the start.
    assert_eq!(end, NaiveDate::from_ymd_opt(262142, 11, 30).unwrap().format("%Y-%m-%d").to_string());
}

#[test]
fn weekdays_drive_working_periods() {
    // 2026-05-18 is a Monday: the week splits into Monday to Friday.
    let periods = allocation_working_periods("2026-05-16", "2026-05-24", &vec![]).unwrap();
    assert_eq!(periods, vec![("2026-05-18".to_string(), "2026-05-23".to_string())]);
}

#[test]
fn uuid_text_is_hyphenated_lower_case() {
    let u = required_uuid("{3F2504E0-4F89-41D3-9A0C-0305E82C3301}", "bad").unwrap();
    assert_eq!(u, 0x3f2504e0_4f89_41d3_9a0c_0305e82c3301);
    assert_eq!(record_path("", u), "/3f2504e0-4f89-41d3-9a0c-0305e82c3301");
    assert_eq!(required_uuid("3f2504e04f8941d39a0c0305e82c3301", "bad"), Ok(u));
    assert_eq!(required_uuid("urn:uuid:3f2504e0-4f89-41d3-9a0c-0305e82c3301", "bad"), Ok(u));
    assert_eq!(required_uuid("3f2504e0", "bad"), Err("bad".to_string()));
    assert!(valid_resource_id("3f2504e0-4f89-41d3-9a0c-0305e82c3301"));
    assert_eq!(record_path("/x", 0), "/x/00000000-0000-0000-0000-000000000000");
}

#[test]
fn auth_changes_keep_the_shown_error() {
    let mut p = DashboardPoller::initial();
    p.error = Some("Failed to fetch dashboard: 500".to_string());
    assert!(p.on_auth_change(true));
    assert_eq!(p.error, Some("Failed to fetch dashboard: 500".to_string()));
    p.start_request();
    p.error = Some("stale".to_string());
    assert!(!p.on_auth_change(false));
    assert!(!p.loading);
    assert_eq!(p.error, Some("stale".to_string()));
}

#[test]
fn month_window_texts_pad_years_like_chrono() {
    assert_eq!(
        TrendRangePreset::CurrentMonth.resolve_from_date(5, 3, 2),
        ("0005-03-01".to_string(), "0005-03-31".to_string())
    );
    assert_eq!(
        TrendRangePreset::CurrentMonth.resolve_from_date(-1, 1, 5),
        ("-0001-01-01".to_string(), "-0001-01-31".to_string())
    );
    assert_eq!(
        TrendRangePreset::CurrentMonth.resolve_from_date(12345, 4, 30),
        ("+12345-04-01".to_string(), "+12345-04-30".to_string())
    );
    let (start, end) = TrendRangePreset::CurrentMonth.resolve_from_date(2026, 5, 22);
    assert!(start.as_str() <= "2026-05-22" && "2026-05-22" <= end.as_str());
}
