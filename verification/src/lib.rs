//! Incremental crawl/diff engine for paginated listing feeds.
//!
//! The library determines, deterministically and without re-downloading the
//! whole history each run, which records of a newest-first listing feed are
//! new since the previous run, together with the highwater-mark persistence
//! rules that keep that determination stable across restarts.

pub mod digest;
pub mod engine;
pub mod feed;
pub mod model;
pub mod store;
pub mod time;

pub use digest::van_summary_html;
pub use engine::normalize;
pub use engine::run_feed;
pub use engine::status_of;
pub use engine::ScanState;
pub use engine::VAN_CAMPER_PAGE_SIZE;
pub use feed::CountryCode;
pub use feed::Currency;
pub use feed::Fuel;
pub use feed::OdometerUnit;
pub use feed::PricingInfo;
pub use feed::RawPage;
pub use feed::RawRecord;
pub use model::HighwaterMark;
pub use model::SaleStatus;
pub use model::Site;
pub use model::VanData;
pub use model::VanSummary;
pub use store::StoredHighwaterData;
pub use time::year_before;
pub use time::MILLIS_PER_YEAR;
