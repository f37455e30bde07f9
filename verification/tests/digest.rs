use van_finder::{van_summary_html, SaleStatus, VanSummary};

fn summary(name: &str, price: &str, miles: &str, status: SaleStatus) -> VanSummary {
    VanSummary {
        url: format!("https://thevancamper.com/post/{}", name),
        name: name.to_string(),
        price: price.to_string(),
        miles: miles.to_string(),
        status,
    }
}

#[test]
fn status_labels() {
    assert_eq!(SaleStatus::IsSold.label(), "Sold");
    assert_eq!(SaleStatus::IsPending.label(), "Sale Pending");
    assert_eq!(SaleStatus::ForSale.label(), "For Sale");
    assert_eq!(SaleStatus::Unknown.label(), "Unknown");
}

#[test]
fn one_summary_renders_exactly() {
    let v = summary("Sprinter", "$25,000", "90000 Miles", SaleStatus::ForSale);
    assert_eq!(
        v.to_html(),
        "<div><a href=\"https://thevancamper.com/post/Sprinter\">Sprinter</a>\
         <p> $25,000, 90000 Miles (For Sale)</p></div>"
    );
}

#[test]
fn sold_summary_renders_its_label() {
    let v = summary("Westy", "$9,999", "1 Miles", SaleStatus::IsSold);
    assert_eq!(
        v.to_html(),
        "<div><a href=\"https://thevancamper.com/post/Westy\">Westy</a>\
         <p> $9,999, 1 Miles (Sold)</p></div>"
    );
}

#[test]
fn empty_digest_is_a_bare_envelope() {
    assert_eq!(van_summary_html(&[]), "<html></html>");
}

#[test]
fn digest_lists_every_item_in_order() {
    let a = summary("A", "$1", "1 Miles", SaleStatus::IsSold);
    let b = summary("B", "$2", "2 Miles", SaleStatus::IsPending);
    let expected = format!("<html><li>{}</li><li>{}</li></html>", a.to_html(), b.to_html());
    assert_eq!(van_summary_html(&[a, b]), expected);
}

#[test]
fn summaries_order_by_status_then_miles_then_price() {
    let for_sale = summary("a", "$5", "5 Miles", SaleStatus::ForSale);
    let pending = summary("b", "$1", "1 Miles", SaleStatus::IsPending);
    let sold = summary("c", "$1", "1 Miles", SaleStatus::IsSold);
    assert!(for_sale < pending);
    assert!(pending < sold);
    let fewer_miles = summary("d", "$9", "1 Miles", SaleStatus::ForSale);
    assert!(fewer_miles < for_sale);
    let cheaper = summary("e", "$4", "5 Miles", SaleStatus::ForSale);
    assert!(cheaper < for_sale);
    let same = summary("f", "$5", "5 Miles", SaleStatus::ForSale);
    assert_eq!(
        same.partial_cmp(&for_sale),
        Some(std::cmp::Ordering::Equal)
    );
}
