//! The shape of one fetched page of a site's feed, as the site adapter hands
//! it to the diff engine, together with the vocabulary of the van camper
//! feed's typed fields.

use vstd::prelude::*;

verus! {

/// One raw record of a fetched page, already mapped by the site adapter to
/// the fields the engine reads. `id` is the source's native identifier;
/// `created_at` is the source's timestamp string; `price_display` and
/// `mileage_display` are display-ready strings.
#[derive(Clone, Debug, PartialEq)]
pub struct RawRecord {
    pub id: String,
    pub title: String,
    pub url: String,
    pub created_at: String,
    pub is_sold: bool,
    pub is_pending: bool,
    pub price_display: String,
    pub mileage_display: String,
}

/// One fetched page: records in the source's own newest-first order, the
/// server-reported total matching count, and the offset the page was fetched
/// at.
#[derive(Clone, Debug, PartialEq)]
pub struct RawPage {
    pub records: Vec<RawRecord>,
    pub total: i64,
    pub offset: i64,
}

/// Currency a listing is priced in.
#[derive(Clone, Copy, Debug, PartialEq, Eq, Structural)]
pub enum Currency {
    Usd,
}

/// Fuel a listed vehicle runs on.
#[derive(Clone, Copy, Debug, PartialEq, Eq, Structural)]
pub enum Fuel {
    Diesel,
    Gasoline,
}

/// Unit the odometer reading is reported in.
#[derive(Clone, Copy, Debug, PartialEq, Eq, Structural)]
pub enum OdometerUnit {
    Miles,
}

/// Country a listing is located in.
#[derive(Clone, Copy, Debug, PartialEq, Eq, Structural)]
pub enum CountryCode {
    Us,
}

/// A listing's price as the source reports it: an integer amount at a fixed
/// decimal precision, in a given currency.
#[derive(Clone, Copy, Debug, PartialEq, Eq, Structural)]
pub struct PricingInfo {
    pub amount: i64,
    pub currency: Currency,
    pub precision: i64,
}

} // verus!
