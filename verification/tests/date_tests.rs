use aaura_w3_strawb::datetime::{format_day, format_timestamp, to_rfc3339, CalendarDay, UtcTimestamp};
use aaura_w3_strawb::frontmatter::MyFrontmatter;

fn frontmatter(precision: Option<bool>) -> MyFrontmatter {
    MyFrontmatter {
        atom_id_parts: None,
        title: "t".to_string(),
        date_published: None,
        date_published_time_precision: precision,
        description: None,
        keywords: None,
    }
}

#[test]
fn timestamp_validity() {
    assert!(UtcTimestamp::new(1719324668, 0).is_some());
    assert!(UtcTimestamp::new(1719324668, 1_000_000_000).is_none());
    assert!(UtcTimestamp::new(59, 1_500_000_000).is_some());
    assert!(UtcTimestamp::new(-1, 1_500_000_000).is_some());
    assert!(UtcTimestamp::new(-2, 1_500_000_000).is_none());
    assert!(UtcTimestamp::new(i64::MAX, 0).is_none());
}

#[test]
fn timestamps_in_order() {
    let a = UtcTimestamp::new(10, 5).unwrap();
    let b = UtcTimestamp::new(10, 6).unwrap();
    let c = UtcTimestamp::new(11, 0).unwrap();
    assert!(a.is_before(&b));
    assert!(b.is_before(&c));
    assert!(!b.is_before(&a));
    assert!(!a.is_before(&a));
}

#[test]
fn rfc3339_of_publication_date() {
    let t = UtcTimestamp::new(1719324668, 0).unwrap();
    assert_eq!(to_rfc3339(&t), "2024-06-25T14:11:08+00:00");
}

#[test]
fn formats_of_publication_date() {
    let t = UtcTimestamp::new(1719324668, 0).unwrap();
    assert_eq!(format_timestamp(&t, "%F"), "2024-06-25");
    assert_eq!(format_timestamp(&t, "%F %H:%M:%S%:z"), "2024-06-25 14:11:08+00:00");
}

#[test]
fn date_format_placeholder() {
    assert_eq!(frontmatter(None).human_date_format_placeholder(), "%F %H:%M:%S%:z");
    assert_eq!(frontmatter(Some(true)).human_date_format_placeholder(), "%F %H:%M:%S%:z");
    assert_eq!(frontmatter(Some(false)).human_date_format_placeholder(), "%F");
}

#[test]
fn calendar_days() {
    let a = CalendarDay::new(737425).unwrap();
    let b = CalendarDay::new(739062).unwrap();
    assert_eq!(format_day(&a), "2020-01-01");
    assert_eq!(format_day(&b), "2024-06-25");
    assert_eq!(a.days_until(&b), 1637);
    assert_eq!(b.days_until(&a), -1637);
    assert!(CalendarDay::new(i32::MAX).is_none());
}

#[test]
fn timestamp_range_is_chronos() {
    use_range();
}

fn use_range() {
    let first = aaura_w3_strawb::datetime::MIN_SECS;
    let last = aaura_w3_strawb::datetime::MAX_SECS;
    assert!(UtcTimestamp::new(first, 0).is_some());
    assert!(chrono::DateTime::from_timestamp(first, 0).is_some());
    assert!(UtcTimestamp::new(first - 1, 0).is_none());
    assert!(chrono::DateTime::from_timestamp(first - 1, 0).is_none());
    assert!(UtcTimestamp::new(last, 0).is_some());
    assert!(chrono::DateTime::from_timestamp(last, 0).is_some());
    assert!(UtcTimestamp::new(last + 1, 0).is_none());
    assert!(chrono::DateTime::from_timestamp(last + 1, 0).is_none());
    let t = UtcTimestamp::new(last, 0).unwrap();
    assert_eq!(to_rfc3339(&t), "+262142-12-31T23:59:59+00:00");
}

#[test]
fn day_range_is_chronos() {
    let first = aaura_w3_strawb::datetime::MIN_DAYS;
    let last = aaura_w3_strawb::datetime::MAX_DAYS;
    assert!(CalendarDay::new(first).is_some());
    assert!(chrono::NaiveDate::from_num_days_from_ce_opt(first).is_some());
    assert!(CalendarDay::new(first - 1).is_none());
    assert!(chrono::NaiveDate::from_num_days_from_ce_opt(first - 1).is_none());
    assert!(CalendarDay::new(last).is_some());
    assert!(chrono::NaiveDate::from_num_days_from_ce_opt(last).is_some());
    assert!(CalendarDay::new(last + 1).is_none());
    assert!(chrono::NaiveDate::from_num_days_from_ce_opt(last + 1).is_none());
}
