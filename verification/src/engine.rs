//! The paginated diff engine. Given the previous highwater mark, it walks a
//! newest-first feed one page at a time, fixes the run's new mark from the
//! first record of the first page, and collects every record strictly newer
//! than the previous mark's id.

use vstd::prelude::*;

use vstd::arithmetic::mul::lemma_mul_inequality;

use crate::feed::{RawPage, RawRecord};
use crate::model::{HighwaterMark, SaleStatus, Site, VanData, VanSummary};
use crate::time::{parse_timestamp_millis, rfc3339_millis};

verus! {

/// Fixed page size the van camper site is crawled with.
pub const VAN_CAMPER_PAGE_SIZE: i64 = 12;

/// Status of a listing, from the two flags of its raw record: the sold flag
/// takes priority over the pending flag, and a record with neither flag is
/// for sale.
pub open spec fn spec_status_of(is_sold: bool, is_pending: bool) -> SaleStatus {
    if is_sold {
        SaleStatus::IsSold
    } else if is_pending {
        SaleStatus::IsPending
    } else {
        SaleStatus::ForSale
    }
}

/// Executable counterpart of [`spec_status_of`].
pub fn status_of(is_sold: bool, is_pending: bool) -> (r: SaleStatus)
    ensures
        r == spec_status_of(is_sold, is_pending),
{
    if is_sold {
        SaleStatus::IsSold
    } else if is_pending {
        SaleStatus::IsPending
    } else {
        SaleStatus::ForSale
    }
}

/// The normalized summary a raw record maps to.
pub open spec fn summary_of(r: RawRecord) -> VanSummary {
    VanSummary {
        url: r.url,
        name: r.title,
        price: r.price_display,
        miles: r.mileage_display,
        status: spec_status_of(r.is_sold, r.is_pending),
    }
}

/// The summaries a run of records maps to, in order.
pub open spec fn summaries_of(recs: Seq<RawRecord>) -> Seq<VanSummary> {
    recs.map_values(|r: RawRecord| summary_of(r))
}

/// Executable counterpart of [`summary_of`].
pub fn normalize(rec: &RawRecord) -> (v: VanSummary)
    ensures
        v == summary_of(*rec),
{
    VanSummary {
        url: rec.url.clone(),
        name: rec.title.clone(),
        price: rec.price_display.clone(),
        miles: rec.mileage_display.clone(),
        status: status_of(rec.is_sold, rec.is_pending),
    }
}

/// Whether a record's id hits the sentinel boundary. An empty sentinel means
/// "no prior run" and never matches.
pub open spec fn matches_sentinel(r: RawRecord, sentinel: Seq<char>) -> bool {
    sentinel.len() > 0 && r.id@ == sentinel
}

/// How many records of `recs`, scanned in order, precede the sentinel
/// boundary; `recs.len()` where the boundary never occurs.
pub open spec fn scan_len(recs: Seq<RawRecord>, sentinel: Seq<char>) -> int
    decreases recs.len(),
{
    if recs.len() == 0 {
        0
    } else if matches_sentinel(recs[0], sentinel) {
        0
    } else {
        1 + scan_len(recs.skip(1), sentinel)
    }
}

pub proof fn lemma_scan_len_bounds(recs: Seq<RawRecord>, sentinel: Seq<char>)
    ensures
        0 <= scan_len(recs, sentinel) <= recs.len(),
    decreases recs.len(),
{
    if recs.len() > 0 && !matches_sentinel(recs[0], sentinel) {
        lemma_scan_len_bounds(recs.skip(1), sentinel);
    }
}

/// Everything before the scan boundary misses the sentinel, and the boundary
/// record itself, where one exists, carries it.
pub proof fn lemma_scan_len_hits(recs: Seq<RawRecord>, sentinel: Seq<char>)
    ensures
        forall|j: int| 0 <= j < scan_len(recs, sentinel) ==> !matches_sentinel(recs[j], sentinel),
        scan_len(recs, sentinel) < recs.len() ==> matches_sentinel(
            recs[scan_len(recs, sentinel)],
            sentinel,
        ),
    decreases recs.len(),
{
    lemma_scan_len_bounds(recs, sentinel);
    if recs.len() > 0 && !matches_sentinel(recs[0], sentinel) {
        lemma_scan_len_bounds(recs.skip(1), sentinel);
        lemma_scan_len_hits(recs.skip(1), sentinel);
        assert forall|j: int| 0 <= j < scan_len(recs, sentinel) implies !matches_sentinel(
            recs[j],
            sentinel,
        ) by {
            if j > 0 {
                assert(recs.skip(1)[j - 1] == recs[j]);
            }
        }
        if scan_len(recs, sentinel) < recs.len() {
            assert(recs.skip(1)[scan_len(recs, sentinel) - 1] == recs[scan_len(recs, sentinel)]);
        }
    }
}

/// The scan boundary is pinned by where the first sentinel hit stands.
pub proof fn lemma_scan_len_at(recs: Seq<RawRecord>, sentinel: Seq<char>, i: int)
    requires
        0 <= i <= recs.len(),
        forall|j: int| 0 <= j < i ==> !matches_sentinel(recs[j], sentinel),
        i < recs.len() ==> matches_sentinel(recs[i], sentinel),
    ensures
        scan_len(recs, sentinel) == i,
    decreases recs.len(),
{
    if recs.len() == 0 {
    } else if matches_sentinel(recs[0], sentinel) {
    } else {
        assert forall|j: int| 0 <= j < i - 1 implies !matches_sentinel(
            recs.skip(1)[j],
            sentinel,
        ) by {
            assert(recs.skip(1)[j] == recs[j + 1]);
        }
        if i < recs.len() {
            assert(recs.skip(1)[i - 1] == recs[i]);
        }
        lemma_scan_len_at(recs.skip(1), sentinel, i - 1);
    }
}

/// Scan one page's records in order: map everything before the sentinel
/// boundary into `collected`, and report whether the boundary was reached.
fn scan_records(records: &Vec<RawRecord>, sentinel: &String, collected: &mut Vec<VanSummary>) -> (boundary: bool)
    ensures
        final(collected)@ == old(collected)@ + summaries_of(
            records@.take(scan_len(records@, sentinel@)),
        ),
        boundary == (scan_len(records@, sentinel@) < records@.len()),
{
    let ghost sent = sentinel@;
    let n = records.len();
    let mut i: usize = 0;
    let mut boundary = false;
    while i < n && !boundary
        invariant
            n == records@.len(),
            0 <= i <= n,
            sent == sentinel@,
            forall|j: int| 0 <= j < i ==> !matches_sentinel(records@[j], sent),
            boundary ==> i < n && matches_sentinel(records@[i as int], sent),
            collected@ == old(collected)@ + summaries_of(records@.take(i as int)),
        decreases n - i + (if boundary { 0int } else { 1int }),
    {
        let rec = &records[i];
        if !sentinel.as_str().is_empty() && rec.id == *sentinel {
            boundary = true;
        } else {
            collected.push(normalize(rec));
            proof {
                assert(records@.take(i + 1) =~= records@.take(i as int).push(
                    records@[i as int],
                ));
                assert(summaries_of(records@.take(i + 1)) =~= summaries_of(
                    records@.take(i as int),
                ).push(summary_of(records@[i as int])));
            }
            i += 1;
        }
    }
    proof {
        lemma_scan_len_at(records@, sent, i as int);
        if !boundary {
            assert(records@.take(i as int) =~= records@);
        }
    }
    boundary
}

/// The sentinel id a previous mark hands the engine: the mark's id, or the
/// empty string where no prior run exists.
pub open spec fn sentinel_of(previous: Option<HighwaterMark>) -> Seq<char> {
    match previous {
        Some(m) => m.id@,
        None => Seq::<char>::empty(),
    }
}

/// The timestamp a record's `created_at` string yields: its parse, or the
/// fallback where the string does not parse.
pub open spec fn spec_ts_of(created_at: Seq<char>, fallback: i64) -> i64 {
    match rfc3339_millis(created_at) {
        Some(t) => t,
        None => fallback,
    }
}

/// The id the run's new mark carries: that of the first record of the first
/// page, or the empty sentinel id where the feed starts empty.
pub open spec fn mark_id_of(pages: Seq<RawPage>) -> Seq<char> {
    if pages.len() == 0 || pages[0].records@.len() == 0 {
        Seq::<char>::empty()
    } else {
        pages[0].records@[0].id@
    }
}

/// The timestamp the run's new mark carries: that of the first record of the
/// first page, or the fallback where the feed starts empty.
pub open spec fn mark_ts_of(pages: Seq<RawPage>, fallback: i64) -> i64 {
    if pages.len() == 0 || pages[0].records@.len() == 0 {
        fallback
    } else {
        spec_ts_of(pages[0].records@[0].created_at@, fallback)
    }
}

/// Whether the run ends with this page: the boundary was reached, the page
/// came back empty, or the server-reported total fell below the offset the
/// page was fetched at.
pub open spec fn page_stops(page: RawPage, sentinel: Seq<char>, offset: int) -> bool {
    ||| scan_len(page.records@, sentinel) < page.records@.len()
    ||| page.records@.len() == 0
    ||| (page.total as int) < offset
}

/// The items a run collects from `pages`, fetched in order at offsets
/// `offset`, `offset + page_size`, ...: the engine's page-by-page scan, as
/// one function of the whole feed.
pub open spec fn scan_pages(
    pages: Seq<RawPage>,
    sentinel: Seq<char>,
    offset: int,
    page_size: int,
) -> Seq<VanSummary>
    decreases pages.len(),
{
    if pages.len() == 0 {
        Seq::<VanSummary>::empty()
    } else {
        let head = summaries_of(pages[0].records@.take(scan_len(pages[0].records@, sentinel)));
        if page_stops(pages[0], sentinel, offset) {
            head
        } else {
            head + scan_pages(pages.skip(1), sentinel, offset + page_size, page_size)
        }
    }
}

/// How many pages of `pages` a run fetches before it stops.
pub open spec fn pages_used(
    pages: Seq<RawPage>,
    sentinel: Seq<char>,
    offset: int,
    page_size: int,
) -> int
    decreases pages.len(),
{
    if pages.len() == 0 {
        0
    } else if page_stops(pages[0], sentinel, offset) {
        1
    } else {
        1 + pages_used(pages.skip(1), sentinel, offset + page_size, page_size)
    }
}

/// The diff engine's state between pages. The caller fetches pages at
/// `offset` and hands them to [`ScanState::on_page`] until `finished`.
pub struct ScanState {
    pub site: Site,
    pub sentinel_id: String,
    pub fallback_ts: i64,
    pub page_size: i64,
    pub offset: i64,
    pub new_mark: Option<HighwaterMark>,
    pub collected: Vec<VanSummary>,
    pub finished: bool,
}

impl ScanState {
    /// Bounds carried between pages.
    pub open spec fn wf(self) -> bool {
        1 <= self.page_size && 0 <= self.offset
    }

    /// Start a run for `site` against the previous mark, if any. `fallback_ts`
    /// is the default past timestamp used where the feed is empty or a
    /// timestamp string fails to parse.
    pub fn new(site: Site, previous: Option<HighwaterMark>, page_size: i64, fallback_ts: i64) -> (s: ScanState)
        requires
            1 <= page_size,
        ensures
            s.wf(),
            s.site == site,
            s.page_size == page_size,
            s.fallback_ts == fallback_ts,
            s.offset == 0,
            !s.finished,
            s.new_mark is None,
            s.collected@ == Seq::<VanSummary>::empty(),
            s.sentinel_id@ == sentinel_of(previous),
    {
        let sentinel_id = match previous {
            Some(m) => m.id,
            None => String::new(),
        };
        ScanState {
            site,
            sentinel_id,
            fallback_ts,
            page_size,
            offset: 0,
            new_mark: None,
            collected: Vec::new(),
            finished: false,
        }
    }

    /// Consume one fetched page. On the first page only, the run's new mark is
    /// fixed from the page's first record (or the "no data" sentinel mark on
    /// an empty page) and never changes afterwards. Every record before the
    /// sentinel boundary is appended to `collected`; the run finishes when the
    /// boundary is reached or the feed ends.
    pub fn on_page(&mut self, page: &RawPage)
        requires
            old(self).wf(),
            !old(self).finished,
            old(self).offset + old(self).page_size <= i64::MAX,
        ensures
            final(self).wf(),
            final(self).site == old(self).site,
            final(self).sentinel_id == old(self).sentinel_id,
            final(self).fallback_ts == old(self).fallback_ts,
            final(self).page_size == old(self).page_size,
            final(self).collected@ == old(self).collected@ + summaries_of(
                page.records@.take(scan_len(page.records@, old(self).sentinel_id@)),
            ),
            final(self).finished == page_stops(
                *page,
                old(self).sentinel_id@,
                old(self).offset as int,
            ),
            final(self).offset as int == if final(self).finished {
                old(self).offset as int
            } else {
                old(self).offset + old(self).page_size
            },
            final(self).new_mark is Some,
            old(self).new_mark is Some ==> final(self).new_mark == old(self).new_mark,
            old(self).new_mark is None ==> {
                let m = final(self).new_mark->Some_0;
                &&& m.site == old(self).site
                &&& if page.records@.len() == 0 {
                    m.id@ == Seq::<char>::empty() && m.created_at == old(self).fallback_ts
                } else {
                    m.id == page.records@[0].id && m.created_at == spec_ts_of(
                        page.records@[0].created_at@,
                        old(self).fallback_ts,
                    )
                }
            },
    {
        if self.new_mark.is_none() {
            if page.records.len() == 0 {
                self.new_mark = Some(
                    HighwaterMark {
                        site: self.site,
                        created_at: self.fallback_ts,
                        id: String::new(),
                    },
                );
            } else {
                let first = &page.records[0];
                let created_at = match parse_timestamp_millis(first.created_at.as_str()) {
                    Some(t) => t,
                    None => self.fallback_ts,
                };
                self.new_mark = Some(
                    HighwaterMark { site: self.site, created_at, id: first.id.clone() },
                );
            }
        }
        let boundary = scan_records(&page.records, &self.sentinel_id, &mut self.collected);
        let feed_end = page.records.len() == 0 || page.total < self.offset;
        if boundary || feed_end {
            self.finished = true;
        } else {
            self.offset = self.offset + self.page_size;
        }
    }

    /// Finish the run: the new mark fixed from the first page, and the
    /// collected new items.
    pub fn into_result(self) -> (r: VanData)
        requires
            self.new_mark is Some,
        ensures
            r.site == self.site,
            r.highwater == self.new_mark->Some_0,
            r.data == self.collected,
    {
        let mark = self.new_mark.unwrap();
        VanData { site: self.site, highwater: mark, data: self.collected }
    }
}

/// Run the diff engine over an in-memory feed: pages are consumed in order,
/// and a run that outlives the feed sees an empty page, as an exhausted
/// server reports. Returns the run's outcome and how many of `pages` were
/// fetched.
pub fn run_feed(
    site: Site,
    previous: Option<HighwaterMark>,
    page_size: i64,
    fallback_ts: i64,
    pages: &Vec<RawPage>,
) -> (r: (VanData, usize))
    requires
        1 <= page_size,
        (pages@.len() + 1) * (page_size as int) <= i64::MAX,
    ensures
        r.0.site == site,
        r.0.highwater.site == site,
        r.0.highwater.id@ == mark_id_of(pages@),
        r.0.highwater.created_at == mark_ts_of(pages@, fallback_ts),
        r.0.data@ == scan_pages(pages@, sentinel_of(previous), 0, page_size as int),
        r.1 as int == pages_used(pages@, sentinel_of(previous), 0, page_size as int),
{
    let ghost sent = sentinel_of(previous);
    let ghost ps = page_size as int;
    let mut st = ScanState::new(site, previous, page_size, fallback_ts);
    let mut i: usize = 0;
    proof {
        assert(pages@.skip(0) =~= pages@);
        assert(Seq::<VanSummary>::empty() + scan_pages(pages@, sent, 0, ps) =~= scan_pages(
            pages@,
            sent,
            0,
            ps,
        ));
    }
    while !st.finished
        invariant
            st.wf(),
            st.site == site,
            st.page_size == page_size,
            st.fallback_ts == fallback_ts,
            st.sentinel_id@ == sent,
            sent == sentinel_of(previous),
            ps == page_size as int,
            1 <= page_size,
            0 <= i <= pages@.len(),
            (pages@.len() + 1) * ps <= i64::MAX,
            !st.finished ==> st.offset as int == i as int * ps,
            st.new_mark is None ==> i == 0 && !st.finished,
            st.new_mark is Some ==> ({
                let m = st.new_mark->Some_0;
                &&& m.site == site
                &&& m.id@ == mark_id_of(pages@)
                &&& m.created_at == mark_ts_of(pages@, fallback_ts)
            }),
            st.finished ==> st.new_mark is Some,
            !st.finished ==> scan_pages(pages@, sent, 0, ps) == st.collected@ + scan_pages(
                pages@.skip(i as int),
                sent,
                st.offset as int,
                ps,
            ),
            st.finished ==> st.collected@ == scan_pages(pages@, sent, 0, ps),
            !st.finished ==> pages_used(pages@, sent, 0, ps) == i + pages_used(
                pages@.skip(i as int),
                sent,
                st.offset as int,
                ps,
            ),
            st.finished ==> i as int == pages_used(pages@, sent, 0, ps),
        decreases pages@.len() - i + (if st.finished { 0int } else { 1int }),
    {
        proof {
            lemma_mul_inequality(i as int + 1, pages@.len() as int + 1, ps);
            assert(i as int * ps + ps == (i as int + 1) * ps) by (nonlinear_arith);
        }
        if i < pages.len() {
            let ghost prev = st;
            st.on_page(&pages[i]);
            proof {
                assert(pages@.skip(i as int)[0] == pages@[i as int]);
                assert(pages@.skip(i as int).len() > 0);
                if !st.finished {
                    assert(pages@.skip(i as int).skip(1) =~= pages@.skip(i as int + 1));
                    assert((i as int + 1) * ps == i as int * ps + ps) by (nonlinear_arith);
                }
                if prev.new_mark is None {
                    assert(i == 0);
                    assert(pages@.skip(0) =~= pages@);
                }
            }
            i += 1;
        } else {
            let empty_page = RawPage { records: Vec::new(), total: 0, offset: st.offset };
            proof {
                assert(pages@.skip(i as int) =~= Seq::<RawPage>::empty());
                if st.new_mark is None {
                    assert(pages@.len() == 0);
                }
            }
            st.on_page(&empty_page);
            proof {
                assert(empty_page.records@.take(
                    scan_len(empty_page.records@, sent),
                ) =~= Seq::<RawRecord>::empty());
                assert(st.collected@ =~= st.collected@ + summaries_of(Seq::<RawRecord>::empty()));
            }
        }
    }
    let fetched = i;
    let data = st.into_result();
    (data, fetched)
}

/// All records of a feed, page after page, in scan order.
pub open spec fn feed_records(pages: Seq<RawPage>) -> Seq<RawRecord>
    decreases pages.len(),
{
    if pages.len() == 0 {
        Seq::<RawRecord>::empty()
    } else {
        pages[0].records@ + feed_records(pages.skip(1))
    }
}

/// An honest feed relative to the offsets the engine fetches at: every page
/// comes back nonempty and its server-reported total covers the offset it was
/// fetched at, so the scan ends only at the boundary or past the last page.
pub open spec fn wf_feed(pages: Seq<RawPage>, offset: int, page_size: int) -> bool {
    forall|k: int|
        0 <= k < pages.len() ==> (#[trigger] pages[k]).records@.len() > 0 && pages[k].total
            as int >= offset + k * page_size
}

/// Scanning a concatenation scans the first part, and goes on into the second
/// exactly where the first holds no boundary.
pub proof fn lemma_scan_len_concat(a: Seq<RawRecord>, b: Seq<RawRecord>, sentinel: Seq<char>)
    ensures
        scan_len(a + b, sentinel) == if scan_len(a, sentinel) < a.len() {
            scan_len(a, sentinel)
        } else {
            a.len() + scan_len(b, sentinel)
        },
    decreases a.len(),
{
    lemma_scan_len_bounds(a, sentinel);
    if a.len() == 0 {
        assert(a + b =~= b);
    } else {
        assert((a + b)[0] == a[0]);
        if !matches_sentinel(a[0], sentinel) {
            assert((a + b).skip(1) =~= a.skip(1) + b);
            lemma_scan_len_concat(a.skip(1), b, sentinel);
            lemma_scan_len_bounds(a.skip(1), sentinel);
        }
    }
}

/// A sentinel-free scan runs over everything: with the empty "no prior run"
/// sentinel the boundary never occurs.
pub proof fn lemma_scan_len_empty_sentinel(recs: Seq<RawRecord>, sentinel: Seq<char>)
    requires
        sentinel.len() == 0,
    ensures
        scan_len(recs, sentinel) == recs.len(),
    decreases recs.len(),
{
    if recs.len() > 0 {
        lemma_scan_len_empty_sentinel(recs.skip(1), sentinel);
    }
}

/// Over an honest feed, the page-by-page scan equals one pass over the
/// flattened feed: the run collects exactly the records before the first
/// sentinel hit, mapped to summaries.
pub proof fn lemma_scan_pages_flat(
    pages: Seq<RawPage>,
    sentinel: Seq<char>,
    offset: int,
    page_size: int,
)
    requires
        wf_feed(pages, offset, page_size),
        page_size >= 0,
    ensures
        scan_pages(pages, sentinel, offset, page_size) == summaries_of(
            feed_records(pages).take(scan_len(feed_records(pages), sentinel)),
        ),
    decreases pages.len(),
{
    if pages.len() == 0 {
        assert(feed_records(pages).take(0) =~= Seq::<RawRecord>::empty());
        assert(summaries_of(Seq::<RawRecord>::empty()) =~= Seq::<VanSummary>::empty());
    } else {
        let recs = pages[0].records@;
        let rest = pages.skip(1);
        let flat = feed_records(pages);
        lemma_scan_len_bounds(recs, sentinel);
        lemma_scan_len_concat(recs, feed_records(rest), sentinel);
        assert(pages[0].records@.len() > 0 && pages[0].total as int >= offset + 0 * page_size);
        if scan_len(recs, sentinel) < recs.len() {
            // the boundary stands in the first page
            assert(page_stops(pages[0], sentinel, offset));
            assert(flat.take(scan_len(recs, sentinel)) =~= recs.take(scan_len(recs, sentinel)));
        } else {
            assert(scan_len(recs, sentinel) == recs.len());
            assert(!page_stops(pages[0], sentinel, offset));
            assert(wf_feed(rest, offset + page_size, page_size)) by {
                assert forall|k: int| 0 <= k < rest.len() implies (#[trigger] rest[k]).records@.len()
                    > 0 && rest[k].total as int >= (offset + page_size) + k * page_size by {
                    assert(rest[k] == pages[k + 1]);
                    assert(pages[k + 1].records@.len() > 0 && pages[k + 1].total as int >= offset
                        + (k + 1) * page_size);
                    assert((k + 1) * page_size == k * page_size + page_size) by (nonlinear_arith);
                }
            }
            lemma_scan_pages_flat(rest, sentinel, offset + page_size, page_size);
            let frest = feed_records(rest);
            lemma_scan_len_bounds(frest, sentinel);
            assert(flat.take(recs.len() + scan_len(frest, sentinel)) =~= recs + frest.take(
                scan_len(frest, sentinel),
            ));
            assert(summaries_of(recs + frest.take(scan_len(frest, sentinel))) =~= summaries_of(
                recs,
            ) + summaries_of(frest.take(scan_len(frest, sentinel))));
            assert(recs.take(scan_len(recs, sentinel)) =~= recs);
        }
    }
}

/// Idempotence: a second run against the mark the first run produced, over an
/// unchanged feed, collects nothing — the newest record's id is the new
/// sentinel and the scan stops on it at once. (Holds whenever the newest
/// record's id is not the empty string, which no real source id is.)
pub proof fn lemma_second_run_collects_nothing(pages: Seq<RawPage>, offset: int, page_size: int)
    requires
        pages.len() > 0 && pages[0].records@.len() > 0 ==> pages[0].records@[0].id@.len() > 0,
    ensures
        scan_pages(pages, mark_id_of(pages), offset, page_size).len() == 0,
{
    if pages.len() > 0 {
        let recs = pages[0].records@;
        let sent = mark_id_of(pages);
        if recs.len() > 0 {
            assert(matches_sentinel(recs[0], sent));
            assert(scan_len(recs, sent) == 0);
            assert(page_stops(pages[0], sent, offset));
        } else {
            assert(page_stops(pages[0], sent, offset));
        }
        assert(recs.take(scan_len(recs, sent)) =~= Seq::<RawRecord>::empty());
    }
}

/// Boundary precision: with a non-empty sentinel, an honest feed yields
/// exactly the records strictly before the first occurrence of the sentinel
/// id — each of them misses the sentinel, the boundary record itself carries
/// it, and nothing at or after the boundary is collected. Where the sentinel
/// id never occurs, the whole feed is replayed (intentional fail-open).
pub proof fn lemma_boundary_precision(pages: Seq<RawPage>, sentinel: Seq<char>, page_size: int)
    requires
        wf_feed(pages, 0, page_size),
        page_size >= 0,
        sentinel.len() > 0,
    ensures
        ({
            let flat = feed_records(pages);
            let cut = scan_len(flat, sentinel);
            &&& 0 <= cut <= flat.len()
            &&& scan_pages(pages, sentinel, 0, page_size) == summaries_of(flat.take(cut))
            &&& forall|j: int| 0 <= j < cut ==> flat[j].id@ != sentinel
            &&& cut < flat.len() ==> flat[cut].id@ == sentinel
        }),
{
    lemma_scan_pages_flat(pages, sentinel, 0, page_size);
    lemma_scan_len_bounds(feed_records(pages), sentinel);
    lemma_scan_len_hits(feed_records(pages), sentinel);
}

/// Fresh-start behavior: with no previous mark, every record of an honest
/// feed is collected, in feed order. (The produced mark is pinned separately
/// by [`run_feed`]'s contract: it reflects the first page's first record.)
pub proof fn lemma_fresh_start_collects_all(pages: Seq<RawPage>, page_size: int)
    requires
        wf_feed(pages, 0, page_size),
        page_size >= 0,
    ensures
        scan_pages(pages, Seq::<char>::empty(), 0, page_size) == summaries_of(feed_records(pages)),
{
    let flat = feed_records(pages);
    lemma_scan_pages_flat(pages, Seq::<char>::empty(), 0, page_size);
    lemma_scan_len_empty_sentinel(flat, Seq::<char>::empty());
    assert(flat.take(flat.len() as int) =~= flat);
}

/// Mark stability: the mark a run produces is a function of the first page
/// alone — two feeds agreeing on their first page yield the same mark,
/// however the later pages or the boundary differ.
pub proof fn lemma_mark_fixed_by_first_page(
    pages1: Seq<RawPage>,
    pages2: Seq<RawPage>,
    fallback: i64,
)
    requires
        pages1.len() > 0,
        pages2.len() > 0,
        pages1[0] == pages2[0],
    ensures
        mark_id_of(pages1) == mark_id_of(pages2),
        mark_ts_of(pages1, fallback) == mark_ts_of(pages2, fallback),
{
}

} // verus!
