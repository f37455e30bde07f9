//! The digest builder: pure rendering of a run's new listings into a
//! self-contained notification document. No network access and no
//! fallibility; the decision to skip an empty digest lives with the caller.

use vstd::prelude::*;

use vstd::string::StringExecFns;

use crate::model::{SaleStatus, VanSummary};

verus! {

/// The label a sale status renders as.
pub open spec fn spec_status_label(s: SaleStatus) -> Seq<char> {
    match s {
        SaleStatus::IsSold => "Sold"@,
        SaleStatus::IsPending => "Sale Pending"@,
        SaleStatus::ForSale => "For Sale"@,
        SaleStatus::Unknown => "Unknown"@,
    }
}

impl SaleStatus {
    /// The human-readable label of this status.
    pub fn label(&self) -> (r: &'static str)
        ensures
            r@ == spec_status_label(*self),
    {
        match self {
            SaleStatus::IsSold => "Sold",
            SaleStatus::IsPending => "Sale Pending",
            SaleStatus::ForSale => "For Sale",
            SaleStatus::Unknown => "Unknown",
        }
    }
}

/// The rendered fragment of one summary: its url, name, price, mileage and
/// status.
pub open spec fn spec_summary_html(v: VanSummary) -> Seq<char> {
    "<div><a href=\""@ + v.url@ + "\">"@ + v.name@ + "</a><p> "@ + v.price@ + ", "@ + v.miles@
        + " ("@ + spec_status_label(v.status) + ")</p></div>"@
}

impl VanSummary {
    /// Render this summary as one self-contained fragment.
    pub fn to_html(&self) -> (r: String)
        ensures
            r@ == spec_summary_html(*self),
    {
        let mut val = String::new();
        val.append("<div><a href=\"");
        val.append(self.url.as_str());
        val.append("\">");
        val.append(self.name.as_str());
        val.append("</a><p> ");
        val.append(self.price.as_str());
        val.append(", ");
        val.append(self.miles.as_str());
        val.append(" (");
        val.append(self.status.label());
        val.append(")</p></div>");
        proof {
            assert(val@ =~= spec_summary_html(*self));
        }
        val
    }
}

/// The rendered list items of a run's summaries, in order.
pub open spec fn spec_items_html(items: Seq<VanSummary>) -> Seq<char>
    decreases items.len(),
{
    if items.len() == 0 {
        Seq::<char>::empty()
    } else {
        "<li>"@ + spec_summary_html(items[0]) + "</li>"@ + spec_items_html(items.skip(1))
    }
}

/// The full digest document for a run's summaries.
pub open spec fn spec_document_html(items: Seq<VanSummary>) -> Seq<char> {
    "<html>"@ + spec_items_html(items) + "</html>"@
}

/// Render the digest: one list item per summary, in order, wrapped in a
/// document envelope.
pub fn van_summary_html(van_data: &[VanSummary]) -> (r: String)
    ensures
        r@ == spec_document_html(van_data@),
{
    let mut body = String::new();
    let n = van_data.len();
    let mut i: usize = 0;
    proof {
        assert(van_data@.skip(0) =~= van_data@);
        assert(body@ + spec_items_html(van_data@) =~= spec_items_html(van_data@));
    }
    while i < n
        invariant
            n == van_data@.len(),
            0 <= i <= n,
            body@ + spec_items_html(van_data@.skip(i as int)) == spec_items_html(van_data@),
        decreases n - i,
    {
        let ghost body0 = body@;
        body.append("<li>");
        let item_html = van_data[i].to_html();
        body.append(item_html.as_str());
        body.append("</li>");
        proof {
            assert(van_data@.skip(i as int)[0] == van_data@[i as int]);
            assert(van_data@.skip(i as int).skip(1) =~= van_data@.skip(i as int + 1));
            assert(body@ + spec_items_html(van_data@.skip(i as int + 1)) =~= body0
                + spec_items_html(van_data@.skip(i as int)));
        }
        i += 1;
    }
    let mut val = String::new();
    val.append("<html>");
    val.append(body.as_str());
    val.append("</html>");
    proof {
        assert(van_data@.skip(n as int) =~= Seq::<VanSummary>::empty());
        assert(body@ + spec_items_html(Seq::<VanSummary>::empty()) =~= body@);
        assert(val@ =~= spec_document_html(van_data@));
    }
    val
}

} // verus!
