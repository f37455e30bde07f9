//! Shared data model: listing sources, sale status, normalized listing
//! summaries, and the highwater mark that records the deduplication boundary
//! between runs.

use vstd::prelude::*;

use core::cmp::Ordering;
use vstd::string::StrSliceExecFns;

verus! {

/// An enumerated identifier for a listing source. The set of known sources is
/// a closed enumeration.
#[derive(Clone, Copy, Debug, PartialEq, Eq, PartialOrd, Ord, Structural, Hash)]
pub enum Site {
    TheVanCamper,
    VanLifeTrader,
    VanViewer,
}

/// Classification of a listing, in domain priority order: an active listing
/// sorts before a pending one, which sorts before a sold one.
#[derive(Clone, Copy, Debug, PartialEq, Eq, Structural)]
pub enum SaleStatus {
    ForSale,
    IsPending,
    IsSold,
    Unknown,
}

impl SaleStatus {
    /// Position of this status in the domain priority order.
    pub open spec fn spec_rank(self) -> int {
        match self {
            SaleStatus::ForSale => 0,
            SaleStatus::IsPending => 1,
            SaleStatus::IsSold => 2,
            SaleStatus::Unknown => 3,
        }
    }

    /// Executable counterpart of [`Self::spec_rank`].
    pub fn rank(&self) -> (r: u8)
        ensures
            r as int == self.spec_rank(),
    {
        match self {
            SaleStatus::ForSale => 0,
            SaleStatus::IsPending => 1,
            SaleStatus::IsSold => 2,
            SaleStatus::Unknown => 3,
        }
    }
}

/// The source-agnostic summary of one listing: the unit exchanged between the
/// diff engine and the digest builder. `price` and `miles` are display-ready
/// strings supplied by the site adapter.
#[derive(Clone, Debug, PartialEq)]
pub struct VanSummary {
    pub url: String,
    pub name: String,
    pub price: String,
    pub miles: String,
    pub status: SaleStatus,
}

/// Lexicographic order of two character runs, by code point.
pub open spec fn lex_cmp(a: Seq<char>, b: Seq<char>) -> Ordering
    decreases a.len(),
{
    if a.len() == 0 && b.len() == 0 {
        Ordering::Equal
    } else if a.len() == 0 {
        Ordering::Less
    } else if b.len() == 0 {
        Ordering::Greater
    } else if a[0] == b[0] {
        lex_cmp(a.skip(1), b.skip(1))
    } else if (a[0] as u32) < (b[0] as u32) {
        Ordering::Less
    } else {
        Ordering::Greater
    }
}

/// Compare two strings lexicographically by code point.
fn cmp_str(a: &str, b: &str) -> (r: Ordering)
    ensures
        r == lex_cmp(a@, b@),
{
    let alen = a.unicode_len();
    let blen = b.unicode_len();
    let mut i: usize = 0;
    proof {
        assert(a@.skip(0) =~= a@);
        assert(b@.skip(0) =~= b@);
    }
    while i < alen && i < blen
        invariant
            alen == a@.len(),
            blen == b@.len(),
            0 <= i <= alen,
            i <= blen,
            lex_cmp(a@, b@) == lex_cmp(a@.skip(i as int), b@.skip(i as int)),
        decreases alen - i,
    {
        let ca = a.get_char(i);
        let cb = b.get_char(i);
        proof {
            assert(a@.skip(i as int)[0] == a@[i as int]);
            assert(b@.skip(i as int)[0] == b@[i as int]);
        }
        if ca == cb {
            proof {
                assert(a@.skip(i as int).skip(1) =~= a@.skip(i as int + 1));
                assert(b@.skip(i as int).skip(1) =~= b@.skip(i as int + 1));
            }
            i += 1;
        } else if (ca as u32) < (cb as u32) {
            return Ordering::Less;
        } else {
            return Ordering::Greater;
        }
    }
    if alen == blen {
        Ordering::Equal
    } else if alen < blen {
        Ordering::Less
    } else {
        Ordering::Greater
    }
}

/// The domain order of summaries: by status priority first, then by the
/// mileage string, then by the price string.
pub open spec fn spec_summary_order(a: VanSummary, b: VanSummary) -> Ordering {
    if a.status.spec_rank() < b.status.spec_rank() {
        Ordering::Less
    } else if a.status.spec_rank() > b.status.spec_rank() {
        Ordering::Greater
    } else if lex_cmp(a.miles@, b.miles@) != Ordering::Equal {
        lex_cmp(a.miles@, b.miles@)
    } else {
        lex_cmp(a.price@, b.price@)
    }
}

impl PartialOrd for VanSummary {
    /// Order summaries by status priority, then mileage, then price.
    fn partial_cmp(&self, other: &Self) -> (r: Option<Ordering>) {
        let s = self.status.rank();
        let o = other.status.rank();
        if s < o {
            Some(Ordering::Less)
        } else if s > o {
            Some(Ordering::Greater)
        } else {
            match cmp_str(self.miles.as_str(), other.miles.as_str()) {
                Ordering::Equal => Some(cmp_str(self.price.as_str(), other.price.as_str())),
                Ordering::Less => Some(Ordering::Less),
                Ordering::Greater => Some(Ordering::Greater),
            }
        }
    }
}

impl vstd::std_specs::cmp::PartialOrdSpecImpl for VanSummary {
    open spec fn obeys_partial_cmp_spec() -> bool {
        true
    }

    open spec fn partial_cmp_spec(&self, other: &Self) -> Option<Ordering> {
        Some(spec_summary_order(*self, *other))
    }
}

/// The most recent item observed for a site as of the last successful run.
/// `created_at` is a unix-epoch timestamp in milliseconds; `id` is the
/// source's native identifier for the item, compared for exact equality only.
/// A mark with an empty `id` (and a default past timestamp) means "no prior
/// data" and never matches a real item during a boundary scan.
#[derive(Clone, Debug, PartialEq, Eq)]
pub struct HighwaterMark {
    pub site: Site,
    pub created_at: i64,
    pub id: String,
}

/// The outcome of one diff-engine run: the new highwater mark for the site,
/// and the listings found to be new since the previous mark.
#[derive(Clone, Debug, PartialEq)]
pub struct VanData {
    pub site: Site,
    pub highwater: HighwaterMark,
    pub data: Vec<VanSummary>,
}

} // verus!
