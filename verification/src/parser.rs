//! The tolerant page parser for the site's search results.
//!
//! A page holds ad rows (`li.media` elements); each row either parses to a
//! `Listing` or is recorded as one `ParseFailure`, never aborting the page.
//! Every row accounts for exactly one of the two, so
//! `listings + failures = rows`.
//!
//! Element extraction goes through the trusted selector wrappers in
//! `scrape`; everything from raw strings to values — prices, ratings,
//! dates, city lists, ribbon labels — is parsed here and verified against
//! the row model `row_model`.

use vstd::prelude::*;

use crate::calendar::Timestamp;
use crate::clock::local_now;
use crate::dates::{parse_listing_date, spec_listing_date};
use crate::models::{opt_view, Listing, ListingType};
use crate::numbers::{parse_u64, parse_u64_spec};
use crate::scrape::{first_attr, first_inner_html, select_first_attr, select_first_inner_html,
    select_htmls, selected_htmls};
use crate::text::{chars_string, contains_lit, contains_sub, eq_lit, remove_all, remove_lit,
    split_lit, split_on, str_chars};

verus! {

/// The field of a listing row a failure is about.
#[derive(Clone, Copy, Debug, PartialEq, Eq, Structural)]
pub enum Field {
    Title,
    Id,
    Price,
    Cities,
    Date,
    Url,
    UrlHref,
    SellerName,
    SellerRatings,
    SellerUrl,
    SellerUrlHref,
}

impl Field {
    /// The field's name as shown in diagnostics.
    pub open spec fn spec_label(&self) -> Seq<char> {
        match *self {
            Field::Title => "title"@,
            Field::Id => "listing id"@,
            Field::Price => "price"@,
            Field::Cities => "cities"@,
            Field::Date => "date"@,
            Field::Url => "listing link"@,
            Field::UrlHref => "listing link href"@,
            Field::SellerName => "seller name"@,
            Field::SellerRatings => "seller ratings"@,
            Field::SellerUrl => "seller link"@,
            Field::SellerUrlHref => "seller link href"@,
        }
    }

    /// The field's name as shown in diagnostics.
    pub fn label(&self) -> (r: &'static str)
        ensures
            r@ == self.spec_label(),
    {
        match *self {
            Field::Title => "title",
            Field::Id => "listing id",
            Field::Price => "price",
            Field::Cities => "cities",
            Field::Date => "date",
            Field::Url => "listing link",
            Field::UrlHref => "listing link href",
            Field::SellerName => "seller name",
            Field::SellerRatings => "seller ratings",
            Field::SellerUrl => "seller link",
            Field::SellerUrlHref => "seller link href",
        }
    }
}

/// Why a row did not yield a listing. `Skipped` marks an intentional
/// exclusion (barter, wanted ad, pinned row), not an error.
#[derive(Clone, Copy, Debug, PartialEq, Eq, Structural)]
pub enum ParseFailureKind {
    Missing,
    Invalid,
    Skipped,
}

/// One row's reason for not becoming a listing.
#[derive(Debug, PartialEq)]
pub struct ParseFailure {
    pub field: Field,
    pub kind: ParseFailureKind,
    /// The offending raw text, where there was any.
    pub value: Option<String>,
}

impl ParseFailure {
    /// A failure with every part given.
    pub fn new(field: Field, kind: ParseFailureKind, value: Option<String>) -> (r: ParseFailure)
        ensures
            r.field == field && r.kind == kind && r.value == value,
    {
        ParseFailure { field, kind, value }
    }

    /// A required field was absent.
    pub fn missing(field: Field) -> (r: ParseFailure)
        ensures
            r.field == field && r.kind == ParseFailureKind::Missing && r.value is None,
    {
        ParseFailure { field, kind: ParseFailureKind::Missing, value: None }
    }

    /// A field was present but unreadable.
    pub fn invalid(field: Field, value: Option<String>) -> (r: ParseFailure)
        ensures
            r.field == field && r.kind == ParseFailureKind::Invalid && r.value == value,
    {
        ParseFailure { field, kind: ParseFailureKind::Invalid, value }
    }

    /// The row is deliberately excluded.
    pub fn skipped(field: Field) -> (r: ParseFailure)
        ensures
            r.field == field && r.kind == ParseFailureKind::Skipped && r.value is None,
    {
        ParseFailure { field, kind: ParseFailureKind::Skipped, value: None }
    }
}

/// Page-level facts shown alongside notifications: the active category and
/// the price bounds of the search form. `name` is a display slot that the
/// parser leaves empty.
#[derive(Debug, PartialEq)]
pub struct ScrapeMetadata {
    pub name: Option<String>,
    pub category: Option<String>,
    pub min_price: Option<u64>,
    pub max_price: Option<u64>,
}

/// What one page parses to.
pub struct ParsedPage {
    pub metadata: ScrapeMetadata,
    pub listings: Vec<Listing>,
    pub failures: Vec<ParseFailure>,
}

/// How many failures of `fs` are of kind `kind`.
pub open spec fn count_of_kind(fs: Seq<ParseFailure>, kind: ParseFailureKind) -> nat
    decreases fs.len(),
{
    if fs.len() == 0 {
        0
    } else {
        count_of_kind(fs.drop_last(), kind) + if fs.last().kind == kind {
            1nat
        } else {
            0nat
        }
    }
}

/// A count never exceeds the number of failures counted.
pub proof fn lemma_count_of_kind_bound(fs: Seq<ParseFailure>, kind: ParseFailureKind)
    ensures
        count_of_kind(fs, kind) <= fs.len(),
    decreases fs.len(),
{
    if fs.len() > 0 {
        lemma_count_of_kind_bound(fs.drop_last(), kind);
    }
}

/// Counts of two different kinds together never exceed the number of
/// failures counted.
pub proof fn lemma_counts_disjoint(fs: Seq<ParseFailure>, k1: ParseFailureKind, k2: ParseFailureKind)
    requires
        k1 != k2,
    ensures
        count_of_kind(fs, k1) + count_of_kind(fs, k2) <= fs.len(),
    decreases fs.len(),
{
    if fs.len() > 0 {
        lemma_counts_disjoint(fs.drop_last(), k1, k2);
    }
}

impl ParsedPage {
    /// How many rows were deliberately excluded.
    pub fn skipped_listings_count(&self) -> (r: usize)
        ensures
            r == count_of_kind(self.failures@, ParseFailureKind::Skipped),
    {
        count_failures_of_kind(&self.failures, ParseFailureKind::Skipped)
    }

    /// How many rows lacked a required field.
    pub fn missing_field_listings_count(&self) -> (r: usize)
        ensures
            r == count_of_kind(self.failures@, ParseFailureKind::Missing),
    {
        count_failures_of_kind(&self.failures, ParseFailureKind::Missing)
    }

    /// How many rows carried an unreadable field.
    pub fn invalid_filed_listing_count(&self) -> (r: usize)
        ensures
            r == count_of_kind(self.failures@, ParseFailureKind::Invalid),
    {
        count_failures_of_kind(&self.failures, ParseFailureKind::Invalid)
    }

    /// How many rows failed outright: unreadable or missing, not skipped.
    pub fn unparsable_listing_count(&self) -> (r: usize)
        ensures
            r == count_of_kind(self.failures@, ParseFailureKind::Invalid) + count_of_kind(
                self.failures@,
                ParseFailureKind::Missing,
            ),
    {
        proof {
            lemma_counts_disjoint(
                self.failures@,
                ParseFailureKind::Invalid,
                ParseFailureKind::Missing,
            );
        }
        let total = self.failures.len();
        let invalid = count_failures_of_kind(&self.failures, ParseFailureKind::Invalid);
        let missing = count_failures_of_kind(&self.failures, ParseFailureKind::Missing);
        proof {
            assert(invalid + missing <= total);
        }
        invalid + missing
    }
}

/// Counts the failures of one kind.
fn count_failures_of_kind(failures: &Vec<ParseFailure>, kind: ParseFailureKind) -> (r: usize)
    ensures
        r == count_of_kind(failures@, kind),
{
    let mut count: usize = 0;
    let mut i: usize = 0;
    proof {
        assert(failures@.take(0) =~= Seq::<ParseFailure>::empty());
        lemma_count_of_kind_bound(failures@.take(0), kind);
    }
    while i < failures.len()
        invariant
            i <= failures@.len(),
            count == count_of_kind(failures@.take(i as int), kind),
            count <= i,
        decreases failures@.len() - i,
    {
        let hit = failures[i].kind == kind;
        i = i + 1;
        proof {
            assert(failures@.take(i as int).drop_last() =~= failures@.take(i - 1));
            assert(failures@.take(i as int).last() == failures@[i - 1]);
        }
        if hit {
            count = count + 1;
        }
    }
    proof {
        assert(failures@.take(failures@.len() as int) =~= failures@);
    }
    count
}

/// A listing with its text fields as plain sequences: what a row parses to,
/// at the specification level.
pub struct ListingModel {
    pub id: i64,
    pub url: Seq<char>,
    pub title: Seq<char>,
    pub price: u64,
    pub cities: Seq<Seq<char>>,
    pub date: Timestamp,
    pub frozen: bool,
    pub seller_name: Seq<char>,
    pub seller_ratings: u64,
    pub seller_url: Seq<char>,
    pub listing_type: ListingType,
}

/// A failure with its raw text as a plain sequence.
pub struct FailureModel {
    pub field: Field,
    pub kind: ParseFailureKind,
    pub value: Option<Seq<char>>,
}

/// Whether the executable listing carries exactly the model's values.
pub open spec fn matches_listing(l: Listing, m: ListingModel) -> bool {
    &&& l.id == m.id
    &&& l.url@ == m.url
    &&& l.title@ == m.title
    &&& l.price == m.price
    &&& l.cities@.map_values(|c: String| c@) == m.cities
    &&& l.date == m.date
    &&& l.frozen == m.frozen
    &&& l.seller_name@ == m.seller_name
    &&& l.seller_ratings == m.seller_ratings
    &&& l.seller_url@ == m.seller_url
    &&& l.listing_type == m.listing_type
}

/// Whether the executable failure carries exactly the model's values.
pub open spec fn matches_failure(f: ParseFailure, m: FailureModel) -> bool {
    &&& f.field == m.field
    &&& f.kind == m.kind
    &&& opt_view(f.value) == m.value
}

/// How a ribbon label maps to a listing type: `Bazár` and `Kiemelt` are
/// special, anything else (including no ribbon) is a regular listing.
pub open spec fn spec_listing_type(ribbon: Option<Seq<char>>) -> ListingType {
    match ribbon {
        None => ListingType::Regular,
        Some(label) => if label == "Bazár"@ {
            ListingType::Bazar
        } else if label == "Kiemelt"@ {
            ListingType::Featured
        } else {
            ListingType::Regular
        },
    }
}

/// A price text with the thousands-separating spaces and the currency
/// suffix stripped.
pub open spec fn spec_price_text(raw: Seq<char>) -> Seq<char> {
    remove_all(remove_all(raw, " "@), "Ft"@)
}

/// What a price text means.
#[derive(Clone, Copy, Debug, PartialEq, Eq, Structural)]
pub enum PriceReading {
    /// A number of forints; `Ingyenes` (free) reads as zero.
    Amount(u64),
    /// `Csere` (barter) or `Keresem` (wanted): the row is excluded.
    Excluded,
    /// Not a price.
    Unreadable,
}

/// How a cleaned price text reads.
pub open spec fn spec_price(cleaned: Seq<char>) -> PriceReading {
    if cleaned == "Ingyenes"@ {
        PriceReading::Amount(0)
    } else if cleaned == "Csere"@ || cleaned == "Keresem"@ {
        PriceReading::Excluded
    } else {
        match parse_u64_spec(cleaned) {
            Some(v) => PriceReading::Amount(v),
            None => PriceReading::Unreadable,
        }
    }
}

/// Cleans and reads a raw price text; also returns the cleaned text, which
/// failures report.
pub fn parse_price(raw: &Vec<char>) -> (r: (PriceReading, Vec<char>))
    ensures
        r.1@ == spec_price_text(raw@),
        r.0 == spec_price(spec_price_text(raw@)),
{
    proof {
        reveal_strlit(" ");
        reveal_strlit("Ft");
    }
    let no_spaces = remove_lit(raw, " ");
    let cleaned = remove_lit(&no_spaces, "Ft");
    let reading = if eq_lit(&cleaned, "Ingyenes") {
        PriceReading::Amount(0)
    } else if eq_lit(&cleaned, "Csere") || eq_lit(&cleaned, "Keresem") {
        PriceReading::Excluded
    } else {
        match parse_u64(&cleaned) {
            Some(v) => PriceReading::Amount(v),
            None => PriceReading::Unreadable,
        }
    };
    (reading, cleaned)
}

/// What a seller-ratings text (`+N`) means: the count, or nothing when it
/// is not a number once the plus signs are stripped.
pub open spec fn spec_ratings(raw: Seq<char>) -> Option<u64> {
    parse_u64_spec(remove_all(raw, "+"@))
}

/// Reads a seller-ratings text.
pub fn parse_ratings(raw: &Vec<char>) -> (r: Option<u64>)
    ensures
        r == spec_ratings(raw@),
{
    proof {
        reveal_strlit("+");
    }
    let cleaned = remove_lit(raw, "+");
    parse_u64(&cleaned)
}

/// What one ad row parses to, relative to `today`: a listing model, or the
/// first failure met along the way. The stages run in a fixed order — id,
/// listing link, title, price, cities, seller name, seller ratings, seller
/// link, date — and the first absent, unreadable or excluding field decides
/// the failure.
pub open spec fn row_model(row: Seq<char>, today: Timestamp) -> Result<ListingModel, FailureModel> {
    let listing_type = spec_listing_type(
        first_inner_html(row, "a.uad-image>div.uad-corner-ribbon>span"@),
    );
    match first_attr(row, "li.media"@, "data-uadid"@) {
        None => Err(
            FailureModel { field: Field::Id, kind: ParseFailureKind::Missing, value: None },
        ),
        Some(id_text) => match crate::numbers::parse_i64_spec(id_text) {
            None => Err(
                FailureModel {
                    field: Field::Id,
                    kind: ParseFailureKind::Invalid,
                    value: Some(id_text),
                },
            ),
            Some(id) => match first_inner_html(row, "div.uad-col-title>h1>a"@) {
                None => Err(
                    FailureModel {
                        field: Field::Url,
                        kind: ParseFailureKind::Missing,
                        value: None,
                    },
                ),
                Some(title) => match first_attr(row, "div.uad-col-title>h1>a"@, "href"@) {
                    None => Err(
                        FailureModel {
                            field: Field::UrlHref,
                            kind: ParseFailureKind::Missing,
                            value: None,
                        },
                    ),
                    Some(url) => match first_inner_html(row, "div.uad-price>span"@) {
                        None => Err(
                            FailureModel {
                                field: Field::Price,
                                kind: ParseFailureKind::Missing,
                                value: None,
                            },
                        ),
                        Some(price_raw) => {
                            let price_text = spec_price_text(price_raw);
                            match spec_price(price_text) {
                                PriceReading::Excluded => Err(
                                    FailureModel {
                                        field: Field::Price,
                                        kind: ParseFailureKind::Skipped,
                                        value: None,
                                    },
                                ),
                                PriceReading::Unreadable => Err(
                                    FailureModel {
                                        field: Field::Price,
                                        kind: ParseFailureKind::Invalid,
                                        value: Some(price_text),
                                    },
                                ),
                                PriceReading::Amount(price) => {
                                    let frozen = first_inner_html(
                                        row,
                                        "div.uad-price-iced"@,
                                    ) is Some;
                                    match first_inner_html(row, "div.uad-cities"@) {
                                        None => Err(
                                            FailureModel {
                                                field: Field::Cities,
                                                kind: ParseFailureKind::Missing,
                                                value: None,
                                            },
                                        ),
                                        Some(cities_raw) => match first_inner_html(
                                            row,
                                            "span.uad-user-text>a"@,
                                        ) {
                                            None => Err(
                                                FailureModel {
                                                    field: Field::SellerName,
                                                    kind: ParseFailureKind::Missing,
                                                    value: None,
                                                },
                                            ),
                                            Some(seller_name) => {
                                                let ratings_raw = first_inner_html(
                                                    row,
                                                    "span.uad-rating-positive"@,
                                                );
                                                let ratings = match ratings_raw {
                                                    None => Some(0u64),
                                                    Some(text) => spec_ratings(text),
                                                };
                                                match ratings {
                                                    None => Err(
                                                        FailureModel {
                                                            field: Field::SellerRatings,
                                                            kind: ParseFailureKind::Invalid,
                                                            value: ratings_raw,
                                                        },
                                                    ),
                                                    Some(seller_ratings) => match first_attr(
                                                        row,
                                                        "span.uad-user-text>a"@,
                                                        "href"@,
                                                    ) {
                                                        None => Err(
                                                            FailureModel {
                                                                field: Field::SellerUrlHref,
                                                                kind: ParseFailureKind::Missing,
                                                                value: None,
                                                            },
                                                        ),
                                                        Some(seller_url) => match first_inner_html(
                                                            row,
                                                            "div.uad-time>time"@,
                                                        ) {
                                                            None => Err(
                                                                FailureModel {
                                                                    field: Field::Date,
                                                                    kind: ParseFailureKind::Missing,
                                                                    value: None,
                                                                },
                                                            ),
                                                            Some(date_raw) => {
                                                                if contains_sub(
                                                                    date_raw,
                                                                    "El\u{151}resorolva"@,
                                                                ) {
                                                                    Err(
                                                                        FailureModel {
                                                                            field: Field::Date,
                                                                            kind: ParseFailureKind::Skipped,
                                                                            value: None,
                                                                        },
                                                                    )
                                                                } else {
                                                                    match spec_listing_date(
                                                                        date_raw,
                                                                        today,
                                                                    ) {
                                                                        None => Err(
                                                                            FailureModel {
                                                                                field: Field::Date,
                                                                                kind: ParseFailureKind::Invalid,
                                                                                value: Some(date_raw),
                                                                            },
                                                                        ),
                                                                        Some(date) => Ok(
                                                                            ListingModel {
                                                                                id,
                                                                                url,
                                                                                title,
                                                                                price,
                                                                                cities: split_on(
                                                                                    cities_raw,
                                                                                    ", "@,
                                                                                ),
                                                                                date,
                                                                                frozen,
                                                                                seller_name,
                                                                                seller_ratings,
                                                                                seller_url,
                                                                                listing_type,
                                                                            },
                                                                        ),
                                                                    }
                                                                }
                                                            },
                                                        },
                                                    },
                                                }
                                            },
                                        },
                                    }
                                },
                            }
                        },
                    },
                },
            },
        },
    }
}

/// Parses one ad row (the outer HTML of a `li.media` element) relative to
/// `today`.
pub fn parse_listing_row(row: &String, today: Timestamp) -> (r: Result<Listing, ParseFailure>)
    requires
        today.wf(),
        today.year > i32::MIN,
    ensures
        match r {
            Ok(l) => row_model(row@, today) is Ok && matches_listing(
                l,
                row_model(row@, today)->Ok_0,
            ),
            Err(f) => row_model(row@, today) is Err && matches_failure(
                f,
                row_model(row@, today)->Err_0,
            ),
        },
{
    let ribbon = select_first_inner_html(row.as_str(), "a.uad-image>div.uad-corner-ribbon>span");
    let listing_type = match &ribbon {
        None => ListingType::Regular,
        Some(label) => {
            let label_chars = str_chars(label.as_str());
            if eq_lit(&label_chars, "Bazár") {
                ListingType::Bazar
            } else if eq_lit(&label_chars, "Kiemelt") {
                ListingType::Featured
            } else {
                ListingType::Regular
            }
        },
    };
    let id_text = match select_first_attr(row.as_str(), "li.media", "data-uadid") {
        None => {
            return Err(ParseFailure::missing(Field::Id));
        },
        Some(t) => t,
    };
    let id = match crate::numbers::parse_i64(&str_chars(id_text.as_str())) {
        None => {
            return Err(ParseFailure::invalid(Field::Id, Some(id_text)));
        },
        Some(id) => id,
    };
    let title = match select_first_inner_html(row.as_str(), "div.uad-col-title>h1>a") {
        None => {
            return Err(ParseFailure::missing(Field::Url));
        },
        Some(t) => t,
    };
    let url = match select_first_attr(row.as_str(), "div.uad-col-title>h1>a", "href") {
        None => {
            return Err(ParseFailure::missing(Field::UrlHref));
        },
        Some(u) => u,
    };
    let price_raw = match select_first_inner_html(row.as_str(), "div.uad-price>span") {
        None => {
            return Err(ParseFailure::missing(Field::Price));
        },
        Some(p) => p,
    };
    let (reading, cleaned) = parse_price(&str_chars(price_raw.as_str()));
    let price = match reading {
        PriceReading::Excluded => {
            return Err(ParseFailure::skipped(Field::Price));
        },
        PriceReading::Unreadable => {
            return Err(ParseFailure::invalid(Field::Price, Some(chars_string(&cleaned))));
        },
        PriceReading::Amount(p) => p,
    };
    let frozen = match select_first_inner_html(row.as_str(), "div.uad-price-iced") {
        Some(_) => true,
        None => false,
    };
    let cities_raw = match select_first_inner_html(row.as_str(), "div.uad-cities") {
        None => {
            return Err(ParseFailure::missing(Field::Cities));
        },
        Some(c) => c,
    };
    let seller_name = match select_first_inner_html(row.as_str(), "span.uad-user-text>a") {
        None => {
            return Err(ParseFailure::missing(Field::SellerName));
        },
        Some(s) => s,
    };
    let ratings_raw = select_first_inner_html(row.as_str(), "span.uad-rating-positive");
    let seller_ratings = match ratings_raw {
        None => 0u64,
        Some(text) => match parse_ratings(&str_chars(text.as_str())) {
            None => {
                return Err(ParseFailure::invalid(Field::SellerRatings, Some(text)));
            },
            Some(v) => v,
        },
    };
    let seller_url = match select_first_attr(row.as_str(), "span.uad-user-text>a", "href") {
        None => {
            return Err(ParseFailure::missing(Field::SellerUrlHref));
        },
        Some(u) => u,
    };
    let date_raw = match select_first_inner_html(row.as_str(), "div.uad-time>time") {
        None => {
            return Err(ParseFailure::missing(Field::Date));
        },
        Some(d) => d,
    };
    let date_chars = str_chars(date_raw.as_str());
    if contains_lit(&date_chars, "El\u{151}resorolva") {
        return Err(ParseFailure::skipped(Field::Date));
    }
    let date = match parse_listing_date(&date_chars, today) {
        None => {
            return Err(ParseFailure::invalid(Field::Date, Some(date_raw)));
        },
        Some(d) => d,
    };
    proof {
        reveal_strlit(", ");
    }
    let cities_pieces = split_lit(&str_chars(cities_raw.as_str()), ", ");
    let mut cities: Vec<String> = Vec::new();
    let mut i: usize = 0;
    proof {
        assert(cities@.map_values(|c: String| c@) =~~= cities_pieces.deep_view().take(0));
    }
    while i < cities_pieces.len()
        invariant
            i <= cities_pieces@.len(),
            cities@.map_values(|c: String| c@) == cities_pieces.deep_view().take(i as int),
        decreases cities_pieces@.len() - i,
    {
        let ghost old_lhs = cities@.map_values(|c: String| c@);
        cities.push(chars_string(&cities_pieces[i]));
        i = i + 1;
        proof {
            let lhs = cities@.map_values(|c: String| c@);
            let rhs = cities_pieces.deep_view().take(i as int);
            assert(lhs.len() == cities@.len());
            assert(old_lhs.len() == i - 1);
            assert(cities@.len() == i);
            assert(cities_pieces.deep_view().len() == cities_pieces@.len());
            assert(rhs.len() == i);
            assert(lhs.len() == rhs.len());
            assert forall|k: int| 0 <= k < lhs.len() implies lhs[k] == rhs[k] by {
                if k < i - 1 {
                    assert(lhs[k] == old_lhs[k]);
                    assert(rhs[k] == cities_pieces.deep_view().take(i - 1)[k]);
                } else {
                    assert(lhs[k] == cities@[i - 1]@);
                    assert(rhs[k] == cities_pieces@[i - 1].deep_view());
                    assert(cities_pieces@[i - 1].deep_view() =~= cities_pieces@[i - 1]@);
                }
            }
            assert(lhs =~~= rhs);
        }
    }
    proof {
        assert(cities_pieces.deep_view().take(cities_pieces@.len() as int)
            =~~= cities_pieces.deep_view());
    }
    Ok(
        Listing {
            id,
            url,
            title,
            price,
            cities,
            date,
            frozen,
            seller_name,
            seller_ratings,
            seller_url,
            listing_type,
        },
    )
}

/// The row models of a page's ad rows.
pub open spec fn row_models(rows: Seq<Seq<char>>, today: Timestamp) -> Seq<
    Result<ListingModel, FailureModel>,
> {
    rows.map_values(|r: Seq<char>| row_model(r, today))
}

/// The listings among `models`, in order.
pub open spec fn ok_models(models: Seq<Result<ListingModel, FailureModel>>) -> Seq<ListingModel>
    decreases models.len(),
{
    if models.len() == 0 {
        Seq::empty()
    } else {
        let rest = ok_models(models.drop_last());
        match models.last() {
            Ok(l) => rest.push(l),
            Err(_) => rest,
        }
    }
}

/// The failures among `models`, in order.
pub open spec fn err_models(models: Seq<Result<ListingModel, FailureModel>>) -> Seq<FailureModel>
    decreases models.len(),
{
    if models.len() == 0 {
        Seq::empty()
    } else {
        let rest = err_models(models.drop_last());
        match models.last() {
            Ok(_) => rest,
            Err(f) => rest.push(f),
        }
    }
}

/// One more model extends the split by exactly one entry on its side.
proof fn lemma_models_step(
    models: Seq<Result<ListingModel, FailureModel>>,
    m: Result<ListingModel, FailureModel>,
)
    ensures
        m is Ok ==> ok_models(models.push(m)) == ok_models(models).push(m->Ok_0) && err_models(
            models.push(m),
        ) == err_models(models),
        m is Err ==> err_models(models.push(m)) == err_models(models).push(m->Err_0) && ok_models(
            models.push(m),
        ) == ok_models(models),
{
    assert(models.push(m).drop_last() =~= models);
    assert(models.push(m).last() == m);
}

/// Parses a whole search page relative to `today`: the page metadata, one
/// listing per readable ad row and one failure per unreadable or excluded
/// one, in page order. Every ad row lands in exactly one of the two, so
/// their counts add up to the row count — no input aborts the page.
pub fn parse_hardverapro_at(body: &str, today: Timestamp) -> (page: ParsedPage)
    requires
        today.wf(),
        today.year > i32::MIN,
    ensures
        page.listings@.len() + page.failures@.len() == selected_htmls(body@, "li.media"@).len(),
        ({
            let models = row_models(selected_htmls(body@, "li.media"@), today);
            &&& page.listings@.len() == ok_models(models).len()
            &&& forall|k: int|
                0 <= k < page.listings@.len() ==> matches_listing(
                    #[trigger] page.listings@[k],
                    ok_models(models)[k],
                )
            &&& page.failures@.len() == err_models(models).len()
            &&& forall|k: int|
                0 <= k < page.failures@.len() ==> matches_failure(
                    #[trigger] page.failures@[k],
                    err_models(models)[k],
                )
        }),
        page.metadata.name is None,
        opt_view(page.metadata.category) == first_inner_html(
            body@,
            "div.uad-categories-item.active>a"@,
        ),
        page.metadata.min_price == (match first_attr(body@, "input[name=\"minprice\"]"@, "value"@) {
            Some(text) => parse_u64_spec(text),
            None => None,
        }),
        page.metadata.max_price == (match first_attr(body@, "input[name=\"maxprice\"]"@, "value"@) {
            Some(text) => parse_u64_spec(text),
            None => None,
        }),
{
    let rows = select_htmls(body, "li.media");
    let ghost rows_view = rows.deep_view();
    let mut listings: Vec<Listing> = Vec::new();
    let mut failures: Vec<ParseFailure> = Vec::new();
    let mut i: usize = 0;
    proof {
        assert(rows_view.take(0) =~= Seq::<Seq<char>>::empty());
        assert(row_models(rows_view.take(0), today) =~= Seq::<
            Result<ListingModel, FailureModel>,
        >::empty());
        assert(ok_models(row_models(rows_view.take(0), today)) =~= Seq::<ListingModel>::empty());
        assert(err_models(row_models(rows_view.take(0), today)) =~= Seq::<FailureModel>::empty());
    }
    while i < rows.len()
        invariant
            i <= rows@.len(),
            rows_view == rows.deep_view(),
            today.wf(),
            today.year > i32::MIN,
            listings@.len() == ok_models(row_models(rows_view.take(i as int), today)).len(),
            forall|k: int|
                0 <= k < listings@.len() ==> matches_listing(
                    #[trigger] listings@[k],
                    ok_models(row_models(rows_view.take(i as int), today))[k],
                ),
            failures@.len() == err_models(row_models(rows_view.take(i as int), today)).len(),
            forall|k: int|
                0 <= k < failures@.len() ==> matches_failure(
                    #[trigger] failures@[k],
                    err_models(row_models(rows_view.take(i as int), today))[k],
                ),
            listings@.len() + failures@.len() == i,
        decreases rows@.len() - i,
    {
        let ghost old_models = row_models(rows_view.take(i as int), today);
        let row = &rows[i];
        proof {
            assert(rows_view[i as int] == row@);
        }
        let outcome = parse_listing_row(row, today);
        i = i + 1;
        proof {
            let new_models = row_models(rows_view.take(i as int), today);
            assert(rows_view.take(i as int).drop_last() =~= rows_view.take(i - 1));
            assert(rows_view.take(i as int).last() == rows_view[i - 1]);
            assert(new_models =~= old_models.push(row_model(rows_view[i - 1], today)));
            lemma_models_step(old_models, row_model(rows_view[i - 1], today));
        }
        match outcome {
            Ok(listing) => {
                listings.push(listing);
            },
            Err(failure) => {
                failures.push(failure);
            },
        }
    }
    proof {
        assert(rows_view.take(rows@.len() as int) =~= rows_view);
        assert(rows_view.len() == rows@.len());
    }
    let category = select_first_inner_html(body, "div.uad-categories-item.active>a");
    let min_price = match select_first_attr(body, "input[name=\"minprice\"]", "value") {
        Some(text) => parse_u64(&str_chars(text.as_str())),
        None => None,
    };
    let max_price = match select_first_attr(body, "input[name=\"maxprice\"]", "value") {
        Some(text) => parse_u64(&str_chars(text.as_str())),
        None => None,
    };
    ParsedPage {
        metadata: ScrapeMetadata { name: None, category, min_price, max_price },
        listings,
        failures,
    }
}

/// Parses a whole search page, reading "today" off the system clock: the
/// meanings of the relative dates `ma` and `tegnap` depend on when the
/// page is parsed, everything else only on the page.
pub fn parse_hardverapro(body: &str) -> (page: ParsedPage)
    ensures
        page.listings@.len() + page.failures@.len() == selected_htmls(body@, "li.media"@).len(),
        page.metadata.name is None,
        opt_view(page.metadata.category) == first_inner_html(
            body@,
            "div.uad-categories-item.active>a"@,
        ),
        page.metadata.min_price == (match first_attr(body@, "input[name=\"minprice\"]"@, "value"@) {
            Some(text) => parse_u64_spec(text),
            None => None,
        }),
        page.metadata.max_price == (match first_attr(body@, "input[name=\"maxprice\"]"@, "value"@) {
            Some(text) => parse_u64_spec(text),
            None => None,
        }),
        exists|today: Timestamp|
            {
                let models = row_models(selected_htmls(body@, "li.media"@), today);
                &&& #[trigger] row_models(selected_htmls(body@, "li.media"@), today) == models
                &&& page.listings@.len() == ok_models(models).len()
                &&& forall|k: int|
                    0 <= k < page.listings@.len() ==> matches_listing(
                        #[trigger] page.listings@[k],
                        ok_models(models)[k],
                    )
                &&& page.failures@.len() == err_models(models).len()
                &&& forall|k: int|
                    0 <= k < page.failures@.len() ==> matches_failure(
                        #[trigger] page.failures@[k],
                        err_models(models)[k],
                    )
            },
{
    let today = local_now();
    parse_hardverapro_at(body, today)
}

} // verus!
