use rozsdhabot::calendar::Timestamp;
use rozsdhabot::models::ListingType;
use rozsdhabot::parser::{parse_hardverapro, parse_hardverapro_at, parse_listing_row, parse_price,
    parse_ratings, Field, ParseFailureKind, PriceReading};

fn a_day() -> Timestamp {
    Timestamp { year: 2024, month: 3, day: 15, hour: 12, minute: 0 }
}

fn row(id: i64, title: &str, price: &str, date: &str) -> String {
    let mut r = format!(r#"<li class="media" data-uadid="{id}">"#);
    r.push_str(&format!(
        r#"<div class="uad-col-title"><h1><a href="https://site/ad/{id}">{title}</a></h1></div>"#
    ));
    r.push_str(&format!(r#"<div class="uad-price"><span>{price}</span></div>"#));
    r.push_str(r#"<div class="uad-cities">Budapest, Szeged</div>"#);
    r.push_str(r#"<span class="uad-user-text"><a href="/tag/x">seller-x</a></span>"#);
    r.push_str(r#"<span class="uad-rating-positive">+12</span>"#);
    r.push_str(&format!(r#"<div class="uad-time"><time>{date}</time></div>"#));
    r.push_str(r#"</li>"#);
    r
}

fn page(rows: &[String]) -> String {
    format!(
        r#"<html><body><div class="uad-categories-item active"><a>Hardver</a></div><input name="minprice" value="1000"><input name="maxprice" value="250000"><ul>{}</ul></body></html>"#,
        rows.join("")
    )
}

#[test]
fn parses_a_well_formed_row() {
    let r = row(4242, "RTX 4090", "450 000 Ft", "2024-03-01");
    let listing = parse_listing_row(&r, a_day()).expect("row should parse");
    assert_eq!(listing.id, 4242);
    assert_eq!(listing.title, "RTX 4090");
    assert_eq!(listing.price, 450000);
    assert_eq!(listing.url, "https://site/ad/4242");
    assert_eq!(listing.cities, vec!["Budapest".to_string(), "Szeged".to_string()]);
    assert_eq!(listing.seller_name, "seller-x");
    assert_eq!(listing.seller_ratings, 12);
    assert_eq!(listing.seller_url, "/tag/x");
    assert!(!listing.frozen);
    assert_eq!(listing.listing_type, ListingType::Regular);
    assert_eq!(listing.date.year, 2024);
    assert_eq!(listing.date.month, 3);
    assert_eq!(listing.date.day, 1);
    assert_eq!(listing.date.hour, 0);
}

#[test]
fn relative_dates_use_the_given_day() {
    let today = a_day();
    let ma = parse_listing_row(&row(1, "a", "100 Ft", "ma 14:30"), today).unwrap();
    assert_eq!((ma.date.month, ma.date.day, ma.date.hour, ma.date.minute), (3, 15, 14, 30));
    let tegnap = parse_listing_row(&row(2, "b", "100 Ft", "tegnap 09:05"), today).unwrap();
    assert_eq!((tegnap.date.month, tegnap.date.day, tegnap.date.hour), (3, 14, 9));
    // Yesterday rolls over month boundaries.
    let first = Timestamp { year: 2024, month: 3, day: 1, hour: 0, minute: 0 };
    let rolled = parse_listing_row(&row(3, "c", "100 Ft", "tegnap 10:00"), first).unwrap();
    assert_eq!((rolled.date.month, rolled.date.day), (2, 29));
}

#[test]
fn excluded_and_broken_rows_become_failures() {
    let today = a_day();
    let barter = parse_listing_row(&row(1, "a", "Csere", "2024-03-01"), today).unwrap_err();
    assert_eq!((barter.field, barter.kind), (Field::Price, ParseFailureKind::Skipped));
    let wanted = parse_listing_row(&row(2, "b", "Keresem", "2024-03-01"), today).unwrap_err();
    assert_eq!((wanted.field, wanted.kind), (Field::Price, ParseFailureKind::Skipped));
    let pinned =
        parse_listing_row(&row(3, "c", "100 Ft", "El\u{151}resorolva ma 10:00"), today).unwrap_err();
    assert_eq!((pinned.field, pinned.kind), (Field::Date, ParseFailureKind::Skipped));
    let bad_price = parse_listing_row(&row(4, "d", "hidden", "2024-03-01"), today).unwrap_err();
    assert_eq!((bad_price.field, bad_price.kind), (Field::Price, ParseFailureKind::Invalid));
    assert_eq!(bad_price.value.as_deref(), Some("hidden"));
    let bad_date = parse_listing_row(&row(5, "e", "100 Ft", "soon"), today).unwrap_err();
    assert_eq!((bad_date.field, bad_date.kind), (Field::Date, ParseFailureKind::Invalid));
    let no_id = r#"<li class="media"><div class="uad-price"><span>1 Ft</span></div></li>"#;
    let missing = parse_listing_row(&no_id.to_string(), today).unwrap_err();
    assert_eq!((missing.field, missing.kind), (Field::Id, ParseFailureKind::Missing));
}

#[test]
fn free_listings_cost_zero() {
    let listing = parse_listing_row(&row(9, "free", "Ingyenes", "2024-03-01"), a_day()).unwrap();
    assert_eq!(listing.price, 0);
}

#[test]
fn price_and_ratings_readers() {
    let (reading, cleaned) = parse_price(&"450 000 Ft".chars().collect());
    assert_eq!(reading, PriceReading::Amount(450000));
    assert_eq!(cleaned.iter().collect::<String>(), "450000");
    let (barter, _) = parse_price(&"Csere".chars().collect());
    assert_eq!(barter, PriceReading::Excluded);
    let (junk, _) = parse_price(&"call me".chars().collect());
    assert_eq!(junk, PriceReading::Unreadable);
    assert_eq!(parse_ratings(&"+123".chars().collect()), Some(123));
    assert_eq!(parse_ratings(&"-4".chars().collect()), None);
}

#[test]
fn test_parse_hardverapro() {
    // 100 ad rows: 71 parse, 29 are excluded or unreadable.
    let mut rows: Vec<String> = Vec::new();
    for i in 0..71i64 {
        rows.push(row(1000 + i, "ok", "12 500 Ft", "2024-03-01"));
    }
    for i in 0..10i64 {
        rows.push(row(2000 + i, "barter", "Csere", "2024-03-01"));
    }
    for i in 0..10i64 {
        rows.push(row(3000 + i, "wanted", "Keresem", "2024-03-01"));
    }
    for i in 0..9i64 {
        rows.push(row(4000 + i, "pinned", "1 Ft", "El\u{151}resorolva ma 10:00"));
    }
    let body = page(&rows);
    let results = parse_hardverapro_at(&body, a_day());
    assert_eq!(results.listings.len(), 71);
    assert_eq!(results.failures.len(), 29);
    assert_eq!(results.skipped_listings_count(), 29);
    assert_eq!(results.unparsable_listing_count(), 0);
    assert_eq!(results.metadata.category.as_deref(), Some("Hardver"));
    assert_eq!(results.metadata.min_price, Some(1000));
    assert_eq!(results.metadata.max_price, Some(250000));
}

#[test]
fn clock_based_parse_matches_dated_rows() {
    // Absolute dates do not depend on the clock.
    let body = page(&[row(77, "only", "5 000 Ft", "2024-01-02")]);
    let results = parse_hardverapro(&body);
    assert_eq!(results.listings.len(), 1);
    assert_eq!(results.failures.len(), 0);
    assert_eq!(results.listings[0].date.year, 2024);
    assert_eq!(results.listings[0].date.month, 1);
    assert_eq!(results.listings[0].date.day, 2);
}

#[test]
fn ribbons_decide_the_listing_type() {
    let today = a_day();
    let ribbon_row = |label: &str| {
        let mut r = format!(
            r#"<li class="media" data-uadid="5"><a class="uad-image"><div class="uad-corner-ribbon"><span>{label}</span></div></a>"#
        );
        r.push_str(r#"<div class="uad-col-title"><h1><a href="u">t</a></h1></div>"#);
        r.push_str(r#"<div class="uad-price"><span>1 Ft</span></div>"#);
        r.push_str(r#"<div class="uad-cities">X</div>"#);
        r.push_str(r#"<span class="uad-user-text"><a href="s">n</a></span>"#);
        r.push_str(r#"<div class="uad-time"><time>2024-03-01</time></div></li>"#);
        r
    };
    let bazar = parse_listing_row(&ribbon_row("Baz\u{e1}r"), today).unwrap();
    assert_eq!(bazar.listing_type, ListingType::Bazar);
    let featured = parse_listing_row(&ribbon_row("Kiemelt"), today).unwrap();
    assert_eq!(featured.listing_type, ListingType::Featured);
    let fresh = parse_listing_row(&ribbon_row("Friss"), today).unwrap();
    assert_eq!(fresh.listing_type, ListingType::Regular);
    // No rating span: the seller simply has none.
    assert_eq!(bazar.seller_ratings, 0);
}
