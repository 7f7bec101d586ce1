use rozsdhabot::calendar::Timestamp;
use rozsdhabot::models::{Listing, ListingType};
use rozsdhabot::monitor::plan_cycle;

fn listing(id: i64) -> Listing {
    Listing {
        id,
        url: format!("https://site/ad/{id}"),
        title: format!("item {id}"),
        price: 1000,
        cities: vec!["Budapest".to_string()],
        date: Timestamp { year: 2024, month: 3, day: 1, hour: 0, minute: 0 },
        frozen: false,
        seller_name: "seller".to_string(),
        seller_ratings: 1,
        seller_url: "/tag/seller".to_string(),
        listing_type: ListingType::Regular,
    }
}

#[test]
fn first_run_suppresses_notifications() {
    // A fresh subscription sees the page but notifies nothing; the
    // watermark starts at the newest listing seen.
    let page: Vec<Listing> = vec![listing(101), listing(105), listing(103)];
    let plan = plan_cycle(None, page);
    assert!(plan.to_notify.is_empty());
    assert_eq!(plan.new_last_seen, Some(105));
}

#[test]
fn first_run_on_empty_page_keeps_no_watermark() {
    let plan = plan_cycle(None, Vec::new());
    assert!(plan.to_notify.is_empty());
    assert_eq!(plan.new_last_seen, None);
}

#[test]
fn new_listings_fan_out_in_ascending_order() {
    // With a watermark at 105, only 106 and 107 are new, delivered in
    // ascending id order; the watermark moves to 107.
    let page: Vec<Listing> = vec![listing(104), listing(106), listing(107), listing(105)];
    let plan = plan_cycle(Some(105), page);
    let ids: Vec<i64> = plan.to_notify.iter().map(|l| l.id).collect();
    assert_eq!(ids, vec![106, 107]);
    assert_eq!(plan.new_last_seen, Some(107));
}

#[test]
fn watermark_never_regresses() {
    // A page of only older listings leaves the watermark where it was.
    let page: Vec<Listing> = vec![listing(90), listing(80)];
    let plan = plan_cycle(Some(105), page);
    assert!(plan.to_notify.is_empty());
    assert_eq!(plan.new_last_seen, Some(105));
    // An empty page, too.
    let plan = plan_cycle(Some(105), Vec::new());
    assert_eq!(plan.new_last_seen, Some(105));
}

#[test]
fn no_delivered_listing_is_at_or_below_the_watermark() {
    let page: Vec<Listing> =
        vec![listing(1), listing(300), listing(105), listing(200), listing(2)];
    let plan = plan_cycle(Some(105), page);
    assert!(plan.to_notify.iter().all(|l| l.id > 105));
    let ids: Vec<i64> = plan.to_notify.iter().map(|l| l.id).collect();
    assert_eq!(ids, vec![200, 300]);
    assert_eq!(plan.new_last_seen, Some(300));
}
