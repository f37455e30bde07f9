use van_finder::{run_feed, status_of, HighwaterMark, RawPage, RawRecord, SaleStatus, ScanState, Site};

const TS: &str = "2024-01-02T03:04:05Z";
const TS_MILLIS: i64 = 1_704_164_645_000;
const FALLBACK: i64 = -1_000;

fn rec(id: &str) -> RawRecord {
    RawRecord {
        id: id.to_string(),
        title: format!("Van {}", id),
        url: format!("https://thevancamper.com/post/{}", id),
        created_at: TS.to_string(),
        is_sold: false,
        is_pending: false,
        price_display: "$10,000".to_string(),
        mileage_display: "12000 Miles".to_string(),
    }
}

fn page(ids: &[&str], total: i64, offset: i64) -> RawPage {
    RawPage {
        records: ids.iter().map(|id| rec(id)).collect(),
        total,
        offset,
    }
}

fn mark(id: &str) -> HighwaterMark {
    HighwaterMark {
        site: Site::TheVanCamper,
        created_at: TS_MILLIS,
        id: id.to_string(),
    }
}

fn ids_of(data: &van_finder::VanData) -> Vec<String> {
    data.data
        .iter()
        .map(|v| v.name.trim_start_matches("Van ").to_string())
        .collect()
}

#[test]
fn boundary_on_first_page_stops_the_run() {
    // page size 2, previous sentinel id "5", feed pages (newest-first)
    // [{6},{5}] -> [{4},{3}]: only {6} is new and page 2 is never fetched
    let pages = vec![page(&["6", "5"], 4, 0), page(&["4", "3"], 4, 2)];
    let (data, fetched) = run_feed(Site::TheVanCamper, Some(mark("5")), 2, FALLBACK, &pages);
    assert_eq!(data.highwater.id, "6");
    assert_eq!(data.highwater.created_at, TS_MILLIS);
    assert_eq!(ids_of(&data), vec!["6".to_string()]);
    assert_eq!(fetched, 1);
}

#[test]
fn empty_feed_on_first_run_yields_sentinel_mark() {
    // empty feed, no previous mark: sentinel mark and no items
    let pages: Vec<RawPage> = vec![];
    let (data, fetched) = run_feed(Site::TheVanCamper, None, 2, FALLBACK, &pages);
    assert_eq!(data.highwater.id, "");
    assert_eq!(data.highwater.created_at, FALLBACK);
    assert_eq!(data.highwater.site, Site::TheVanCamper);
    assert!(data.data.is_empty());
    assert_eq!(fetched, 0);
}

#[test]
fn fresh_start_returns_every_item() {
    let pages = vec![page(&["9", "8"], 3, 0), page(&["7"], 3, 2)];
    let (data, fetched) = run_feed(Site::TheVanCamper, None, 2, FALLBACK, &pages);
    assert_eq!(data.highwater.id, "9");
    assert_eq!(
        ids_of(&data),
        vec!["9".to_string(), "8".to_string(), "7".to_string()]
    );
    assert_eq!(fetched, 2);
}

#[test]
fn second_run_with_first_runs_mark_sees_nothing_new() {
    let pages = vec![page(&["9", "8"], 3, 0), page(&["7"], 3, 2)];
    let (first, _) = run_feed(Site::TheVanCamper, None, 2, FALLBACK, &pages);
    let (second, fetched) = run_feed(
        Site::TheVanCamper,
        Some(first.highwater.clone()),
        2,
        FALLBACK,
        &pages,
    );
    assert!(second.data.is_empty());
    assert_eq!(second.highwater, first.highwater);
    assert_eq!(fetched, 1);
}

#[test]
fn boundary_in_middle_of_feed_is_precise() {
    let pages = vec![page(&["45", "44"], 5, 0), page(&["43", "42"], 5, 2), page(&["41"], 5, 4)];
    let (data, fetched) = run_feed(Site::TheVanCamper, Some(mark("42")), 2, FALLBACK, &pages);
    assert_eq!(
        ids_of(&data),
        vec!["45".to_string(), "44".to_string(), "43".to_string()]
    );
    assert_eq!(fetched, 2);
}

#[test]
fn mark_reflects_first_page_even_when_boundary_is_later() {
    let pages = vec![page(&["45", "44"], 5, 0), page(&["43", "42"], 5, 2), page(&["41"], 5, 4)];
    let (data, _) = run_feed(Site::TheVanCamper, Some(mark("41")), 2, FALLBACK, &pages);
    assert_eq!(data.highwater.id, "45");
    assert_eq!(data.highwater.created_at, TS_MILLIS);
}

#[test]
fn missing_sentinel_replays_the_whole_feed() {
    // the previously seen listing disappeared: intentional fail-open
    let pages = vec![page(&["6", "5"], 4, 0), page(&["4", "3"], 4, 2)];
    let (data, _) = run_feed(Site::TheVanCamper, Some(mark("99")), 2, FALLBACK, &pages);
    assert_eq!(
        ids_of(&data),
        vec![
            "6".to_string(),
            "5".to_string(),
            "4".to_string(),
            "3".to_string()
        ]
    );
}

#[test]
fn unparseable_timestamp_falls_back() {
    let mut first = rec("7");
    first.created_at = "not a timestamp".to_string();
    let pages = vec![RawPage { records: vec![first], total: 1, offset: 0 }];
    let (data, _) = run_feed(Site::TheVanCamper, None, 2, FALLBACK, &pages);
    assert_eq!(data.highwater.id, "7");
    assert_eq!(data.highwater.created_at, FALLBACK);
}

#[test]
fn total_below_offset_ends_the_run() {
    // a page whose reported total falls below its own offset is still
    // scanned, but nothing after it is fetched
    let pages = vec![page(&["3", "2"], 1, 0), page(&["1"], 1, 2), page(&["0"], 1, 4)];
    let (data, fetched) = run_feed(Site::TheVanCamper, None, 2, FALLBACK, &pages);
    assert_eq!(
        ids_of(&data),
        vec!["3".to_string(), "2".to_string(), "1".to_string()]
    );
    assert_eq!(fetched, 2);
}

#[test]
fn scan_state_steps_page_by_page() {
    let mut st = ScanState::new(Site::TheVanCamper, Some(mark("5")), 2, FALLBACK);
    assert!(!st.finished);
    assert_eq!(st.offset, 0);
    st.on_page(&page(&["7", "6"], 4, 0));
    assert!(!st.finished);
    assert_eq!(st.offset, 2);
    st.on_page(&page(&["5", "4"], 4, 2));
    assert!(st.finished);
    let data = st.into_result();
    assert_eq!(data.highwater.id, "7");
    assert_eq!(ids_of(&data), vec!["7".to_string(), "6".to_string()]);
}

#[test]
fn sold_flag_outranks_pending_flag() {
    assert_eq!(status_of(true, true), SaleStatus::IsSold);
    assert_eq!(status_of(true, false), SaleStatus::IsSold);
    assert_eq!(status_of(false, true), SaleStatus::IsPending);
    assert_eq!(status_of(false, false), SaleStatus::ForSale);
}

#[test]
fn flags_of_each_record_classify_its_summary() {
    let mut sold = rec("3");
    sold.is_sold = true;
    sold.is_pending = true;
    let mut pending = rec("2");
    pending.is_pending = true;
    let pages = vec![RawPage { records: vec![sold, pending, rec("1")], total: 3, offset: 0 }];
    let (data, _) = run_feed(Site::TheVanCamper, None, 3, FALLBACK, &pages);
    let statuses: Vec<SaleStatus> = data.data.iter().map(|v| v.status).collect();
    assert_eq!(
        statuses,
        vec![SaleStatus::IsSold, SaleStatus::IsPending, SaleStatus::ForSale]
    );
}

#[test]
fn empty_sentinel_never_matches_an_empty_id() {
    // a previous mark with the empty sentinel id must not stop the scan,
    // even on a record whose id is itself empty
    let pages = vec![page(&["", "8"], 2, 0)];
    let (data, _) = run_feed(Site::TheVanCamper, Some(mark("")), 2, FALLBACK, &pages);
    assert_eq!(data.data.len(), 2);
}
