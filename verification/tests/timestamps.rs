use van_finder::{run_feed, year_before, HighwaterMark, RawPage, RawRecord, Site, MILLIS_PER_YEAR};

const FALLBACK: i64 = -1_000;

fn single_record_feed(created_at: &str) -> Vec<RawPage> {
    let rec = RawRecord {
        id: "1".to_string(),
        title: "Van 1".to_string(),
        url: "https://thevancamper.com/post/1".to_string(),
        created_at: created_at.to_string(),
        is_sold: false,
        is_pending: false,
        price_display: "$1".to_string(),
        mileage_display: "1 Miles".to_string(),
    };
    vec![RawPage { records: vec![rec], total: 1, offset: 0 }]
}

fn mark_of(created_at: &str) -> i64 {
    let pages = single_record_feed(created_at);
    let (data, _) = run_feed(Site::TheVanCamper, None, 2, FALLBACK, &pages);
    data.highwater.created_at
}

#[test]
fn rfc3339_strings_parse_to_epoch_millis() {
    assert_eq!(mark_of("2024-01-02T03:04:05Z"), 1_704_164_645_000);
    assert_eq!(mark_of("1970-01-01T00:00:00Z"), 0);
    assert_eq!(mark_of("1969-12-31T23:59:59Z"), -1_000);
    assert_eq!(mark_of("2024-01-02T03:04:05.250Z"), 1_704_164_645_250);
    assert_eq!(mark_of("2024-01-02T04:04:05+01:00"), 1_704_164_645_000);
}

#[test]
fn timestamps_that_do_not_parse_fall_back() {
    assert_eq!(mark_of(""), FALLBACK);
    assert_eq!(mark_of("yesterday"), FALLBACK);
    assert_eq!(mark_of("2024-13-45T99:99:99Z"), FALLBACK);
}

#[test]
fn year_before_subtracts_a_year_and_clamps() {
    assert_eq!(year_before(MILLIS_PER_YEAR), 0);
    assert_eq!(year_before(0), -MILLIS_PER_YEAR);
    assert_eq!(year_before(i64::MIN), i64::MIN);
    assert_eq!(year_before(i64::MIN + MILLIS_PER_YEAR - 1), i64::MIN);
    assert_eq!(year_before(i64::MIN + MILLIS_PER_YEAR), i64::MIN);
}

#[test]
fn default_datetime_lies_about_a_year_in_the_past() {
    let before = HighwaterMark::default_datetime();
    let now = chrono::Utc::now().timestamp_millis();
    assert!(before <= now - MILLIS_PER_YEAR + 60_000);
    assert!(before >= now - MILLIS_PER_YEAR - 60_000);
}
