//! Deriving a display name for a subscription from its URL.
//!
//! The rule: prefer the value of the query parameter `stext` when it is
//! present and non-empty; otherwise fall back to the second-to-last path
//! segment when the path has at least two; otherwise no name. The URL
//! itself is taken apart by the `url` crate.

use vstd::prelude::*;

use crate::text::str_chars;

verus! {

/// What `url::Url::parse` followed by `Url::query_pairs` yields for a URL
/// string: the decoded key/value pairs of the query, in order, or nothing
/// when the string is not a valid URL.
pub uninterp spec fn url_query_pairs(url: Seq<char>) -> Option<Seq<(Seq<char>, Seq<char>)>>;

/// What `url::Url::parse` followed by `Url::path_segments` yields for a
/// URL string: the `/`-separated segments of the path, or nothing when the
/// string is not a valid URL or the URL cannot be a base.
pub uninterp spec fn url_path_segments(url: Seq<char>) -> Option<Seq<Seq<char>>>;

/// The decoded key/value pairs of `url`'s query string.
///
/// Relies on `url::Url::parse` and `url::Url::query_pairs`: parsing is a
/// pure function of the string, and `query_pairs` decodes the
/// `application/x-www-form-urlencoded` query (undoing `+` and
/// percent-escapes) into pairs in order of appearance.
#[verifier::external_body]
fn query_pairs_of(url: &str) -> (r: Option<Vec<(String, String)>>)
    ensures
        match r {
            Some(pairs) => url_query_pairs(url@) == Some(
                pairs@.map_values(|p: (String, String)| (p.0@, p.1@)),
            ),
            None => url_query_pairs(url@) is None,
        },
{
    match url::Url::parse(url) {
        Ok(u) => Some(u.query_pairs().map(|(k, v)| (k.into_owned(), v.into_owned())).collect()),
        Err(_) => None,
    }
}

/// The path segments of `url`.
///
/// Relies on `url::Url::parse` and `url::Url::path_segments`: the segments
/// between the `/` of a parsed URL's path, in order; absent when the URL
/// cannot be a base.
#[verifier::external_body]
fn path_segments_of(url: &str) -> (r: Option<Vec<String>>)
    ensures
        match r {
            Some(segments) => url_path_segments(url@) == Some(
                segments@.map_values(|s: String| s@),
            ),
            None => url_path_segments(url@) is None,
        },
{
    match url::Url::parse(url) {
        Ok(u) => u.path_segments().map(|segments| segments.map(str::to_owned).collect()),
        Err(_) => None,
    }
}

/// The value of the first `stext` query pair whose value is non-empty.
pub open spec fn stext_value(pairs: Seq<(Seq<char>, Seq<char>)>) -> Option<Seq<char>>
    decreases pairs.len(),
{
    if pairs.len() == 0 {
        None
    } else if pairs[0].0 == "stext"@ && pairs[0].1.len() > 0 {
        Some(pairs[0].1)
    } else {
        stext_value(pairs.skip(1))
    }
}

/// The display name derived from a subscription URL: the `stext` query
/// value when one is present and non-empty, else the second-to-last path
/// segment when the path has at least two, else none.
pub open spec fn derive_name(url: Seq<char>) -> Option<Seq<char>> {
    match url_query_pairs(url) {
        None => None,
        Some(pairs) => match stext_value(pairs) {
            Some(value) => Some(value),
            None => match url_path_segments(url) {
                None => None,
                Some(segments) => if segments.len() >= 2 {
                    Some(segments[segments.len() - 2])
                } else {
                    None
                },
            },
        },
    }
}

/// Computes `derive_name` for a URL string.
pub fn name_from_url(url: &str) -> (r: Option<Vec<char>>)
    ensures
        match r {
            Some(name) => derive_name(url@) == Some(name@),
            None => derive_name(url@) is None,
        },
{
    let pairs = match query_pairs_of(url) {
        Some(pairs) => pairs,
        None => {
            return None;
        },
    };
    let ghost pairs_view = pairs@.map_values(|p: (String, String)| (p.0@, p.1@));
    let mut i: usize = 0;
    proof {
        assert(pairs_view.skip(0) =~= pairs_view);
    }
    while i < pairs.len()
        invariant
            i <= pairs@.len(),
            pairs_view == pairs@.map_values(|p: (String, String)| (p.0@, p.1@)),
            url_query_pairs(url@) == Some(pairs_view),
            stext_value(pairs_view) == stext_value(pairs_view.skip(i as int)),
        decreases pairs@.len() - i,
    {
        let key = str_chars(pairs[i].0.as_str());
        let hit = crate::text::eq_lit(&key, "stext") && !pairs[i].1.as_str().is_empty();
        proof {
            assert(pairs_view.skip(i as int)[0] == (pairs@[i as int].0@, pairs@[i as int].1@));
        }
        if hit {
            return Some(str_chars(pairs[i].1.as_str()));
        }
        proof {
            assert(pairs_view.skip(i as int).skip(1) =~= pairs_view.skip(i + 1));
        }
        i = i + 1;
    }
    proof {
        assert(pairs_view.skip(i as int).len() == 0);
        assert(stext_value(pairs_view) is None);
    }
    let segments = match path_segments_of(url) {
        Some(segments) => segments,
        None => {
            return None;
        },
    };
    if segments.len() >= 2 {
        let name = str_chars(segments[segments.len() - 2].as_str());
        proof {
            let sv = segments@.map_values(|s: String| s@);
            assert(sv[sv.len() - 2] == segments@[segments@.len() - 2]@);
        }
        Some(name)
    } else {
        None
    }
}

} // verus!
