//! The crate's window onto HTML: CSS-selector extraction through the
//! `scraper` crate.
//!
//! Parsing an HTML string and selecting within it are pure functions of the
//! strings involved, so each extraction is named by an uninterpreted
//! function and performed by one trusted wrapper. The library's own parser
//! is verified against these names; which elements a selector finds is the
//! `scraper` crate's business.

use vstd::prelude::*;

verus! {

/// What `scraper` yields for "parse `html` as a document and take the
/// outer HTML of every element matching `selector`": one string per match,
/// in document order; empty when nothing matches or the selector is
/// invalid.
pub uninterp spec fn selected_htmls(html: Seq<char>, selector: Seq<char>) -> Seq<Seq<char>>;

/// What `scraper` yields for "parse `html` as a document and take the
/// inner HTML of the first element matching `selector`", if any.
pub uninterp spec fn first_inner_html(html: Seq<char>, selector: Seq<char>) -> Option<Seq<char>>;

/// What `scraper` yields for "parse `html` as a document and take
/// attribute `attr` of the first element matching `selector`", if any.
pub uninterp spec fn first_attr(html: Seq<char>, selector: Seq<char>, attr: Seq<char>) -> Option<
    Seq<char>,
>;

/// The outer HTML of every element of `html` matching `selector`.
///
/// Relies on `scraper::Html::parse_document`, `scraper::Selector::parse`,
/// `scraper::Html::select` and `scraper::ElementRef::html`: all pure
/// functions of their string inputs, so the result depends on `html` and
/// `selector` alone. An invalid selector selects nothing.
#[verifier::external_body]
pub(crate) fn select_htmls(html: &str, selector: &str) -> (r: Vec<String>)
    ensures
        r.deep_view() == selected_htmls(html@, selector@),
{
    let document = scraper::Html::parse_document(html);
    match scraper::Selector::parse(selector) {
        Ok(sel) => document.select(&sel).map(|e| e.html()).collect(),
        Err(_) => Vec::new(),
    }
}

/// The inner HTML of the first element of `html` matching `selector`.
///
/// Relies on `scraper::Html::parse_document`, `scraper::Selector::parse`,
/// `scraper::Html::select` and `scraper::ElementRef::inner_html`: all pure
/// functions of their string inputs. An invalid selector selects nothing.
#[verifier::external_body]
pub(crate) fn select_first_inner_html(html: &str, selector: &str) -> (r: Option<String>)
    ensures
        match r {
            Some(s) => first_inner_html(html@, selector@) == Some(s@),
            None => first_inner_html(html@, selector@) is None,
        },
{
    let document = scraper::Html::parse_document(html);
    match scraper::Selector::parse(selector) {
        Ok(sel) => document.select(&sel).next().map(|e| e.inner_html()),
        Err(_) => None,
    }
}

/// Attribute `attr` of the first element of `html` matching `selector`;
/// `None` when nothing matches or the element lacks the attribute.
///
/// Relies on `scraper::Html::parse_document`, `scraper::Selector::parse`,
/// `scraper::Html::select` and `scraper::ElementRef::attr`: all pure
/// functions of their string inputs. An invalid selector selects nothing.
#[verifier::external_body]
pub(crate) fn select_first_attr(html: &str, selector: &str, attr: &str) -> (r: Option<String>)
    ensures
        match r {
            Some(s) => first_attr(html@, selector@, attr@) == Some(s@),
            None => first_attr(html@, selector@, attr@) is None,
        },
{
    let document = scraper::Html::parse_document(html);
    match scraper::Selector::parse(selector) {
        Ok(sel) => match document.select(&sel).next() {
            Some(element) => element.attr(attr).map(str::to_owned),
            None => None,
        },
        Err(_) => None,
    }
}

} // verus!
