//! Notification formatting and routing.
//!
//! The Telegram and Discord messages are MarkdownV2 texts; the escaping
//! rules are the ones Telegram's MarkdownV2 style defines (and the
//! `teloxide` markdown helpers implement): every reserved character is
//! preceded by a backslash, a link is `[text](url)` with backticks and
//! closing parentheses escaped inside the URL, bold wraps in `*`.
//!
//! The registry holds one optional notifier handle per transport and
//! routes by the channel's tag alone.

use vstd::prelude::*;

use crate::models::{ChannelId, Listing, Subscription};
use crate::numbers::{dec_digits, u64_digits};
use crate::parser::ScrapeMetadata;
use crate::text::{chars_string, str_chars};

verus! {

/// The characters MarkdownV2 reserves in ordinary text.
pub open spec fn is_md_reserved(c: char) -> bool {
    ||| c == '\\'
    ||| c == '_'
    ||| c == '*'
    ||| c == '['
    ||| c == ']'
    ||| c == '('
    ||| c == ')'
    ||| c == '~'
    ||| c == '`'
    ||| c == '>'
    ||| c == '#'
    ||| c == '+'
    ||| c == '-'
    ||| c == '='
    ||| c == '|'
    ||| c == '{'
    ||| c == '}'
    ||| c == '.'
    ||| c == '!'
}

/// `s` with every reserved character preceded by a backslash.
pub open spec fn md_escaped(s: Seq<char>) -> Seq<char>
    decreases s.len(),
{
    if s.len() == 0 {
        Seq::empty()
    } else {
        md_escaped(s.drop_last()) + (if is_md_reserved(s.last()) {
            seq!['\\', s.last()]
        } else {
            seq![s.last()]
        })
    }
}

/// The characters MarkdownV2 reserves inside a link URL.
pub open spec fn is_md_url_reserved(c: char) -> bool {
    c == '`' || c == ')'
}

/// A link URL with its two reserved characters escaped.
pub open spec fn md_escaped_url(s: Seq<char>) -> Seq<char>
    decreases s.len(),
{
    if s.len() == 0 {
        Seq::empty()
    } else {
        md_escaped_url(s.drop_last()) + (if is_md_url_reserved(s.last()) {
            seq!['\\', s.last()]
        } else {
            seq![s.last()]
        })
    }
}

/// An inline link: `[text](url)`, with the URL escaped.
pub open spec fn md_link(url: Seq<char>, text: Seq<char>) -> Seq<char> {
    "["@ + text + "]("@ + md_escaped_url(url) + ")"@
}

/// Exec check for the reserved class.
fn is_md_reserved_char(c: char) -> (r: bool)
    ensures
        r == is_md_reserved(c),
{
    c == '\\' || c == '_' || c == '*' || c == '[' || c == ']' || c == '(' || c == ')' || c == '~'
        || c == '`' || c == '>' || c == '#' || c == '+' || c == '-' || c == '=' || c == '|' || c
        == '{' || c == '}' || c == '.' || c == '!'
}

/// Escapes ordinary text for MarkdownV2.
pub fn escape_markdown(s: &Vec<char>) -> (r: Vec<char>)
    ensures
        r@ == md_escaped(s@),
{
    let mut r: Vec<char> = Vec::new();
    let mut i: usize = 0;
    proof {
        assert(s@.take(0) =~= Seq::<char>::empty());
    }
    while i < s.len()
        invariant
            i <= s@.len(),
            r@ == md_escaped(s@.take(i as int)),
        decreases s@.len() - i,
    {
        let c = s[i];
        if is_md_reserved_char(c) {
            r.push('\\');
        }
        r.push(c);
        i = i + 1;
        proof {
            assert(s@.take(i as int).drop_last() =~= s@.take(i - 1));
            assert(s@.take(i as int).last() == s@[i - 1]);
            assert(r@ =~= md_escaped(s@.take(i as int)));
        }
    }
    proof {
        assert(s@.take(s@.len() as int) =~= s@);
    }
    r
}

/// Escapes a link URL for MarkdownV2.
pub fn escape_markdown_url(s: &Vec<char>) -> (r: Vec<char>)
    ensures
        r@ == md_escaped_url(s@),
{
    let mut r: Vec<char> = Vec::new();
    let mut i: usize = 0;
    proof {
        assert(s@.take(0) =~= Seq::<char>::empty());
    }
    while i < s.len()
        invariant
            i <= s@.len(),
            r@ == md_escaped_url(s@.take(i as int)),
        decreases s@.len() - i,
    {
        let c = s[i];
        if c == '`' || c == ')' {
            r.push('\\');
        }
        r.push(c);
        i = i + 1;
        proof {
            assert(s@.take(i as int).drop_last() =~= s@.take(i - 1));
            assert(s@.take(i as int).last() == s@[i - 1]);
            assert(r@ =~= md_escaped_url(s@.take(i as int)));
        }
    }
    proof {
        assert(s@.take(s@.len() as int) =~= s@);
    }
    r
}

/// The cities of a listing joined with ", ".
pub open spec fn joined_cities(cities: Seq<Seq<char>>) -> Seq<char>
    decreases cities.len(),
{
    if cities.len() == 0 {
        Seq::empty()
    } else if cities.len() == 1 {
        cities[0]
    } else {
        joined_cities(cities.drop_last()) + ", "@ + cities.last()
    }
}

/// The price-range line derived from the page metadata, before escaping:
/// both bounds, only one, or nothing.
pub open spec fn price_range_text(min_price: Option<u64>, max_price: Option<u64>) -> Seq<char> {
    match (min_price, max_price) {
        (Some(lo), Some(hi)) => "between "@ + dec_digits(lo as nat) + " - "@ + dec_digits(
            hi as nat,
        ) + " Ft"@,
        (Some(lo), None) => "above "@ + dec_digits(lo as nat) + " Ft"@,
        (None, Some(hi)) => "under "@ + dec_digits(hi as nat) + " Ft"@,
        (None, None) => Seq::empty(),
    }
}

/// The subscription's display name, or the placeholder for unnamed ones.
pub open spec fn display_name(sub: Subscription) -> Seq<char> {
    match sub.name {
        Some(name) => name@,
        None => "(unnamed)"@,
    }
}

/// The Telegram notification text for one listing: price, linked title,
/// cities, seller with rating count, then the subscription it came from
/// and the page's price range.
pub open spec fn telegram_notification(
    sub: Subscription,
    metadata: ScrapeMetadata,
    listing: Listing,
) -> Seq<char> {
    "\n"@ + md_escaped(dec_digits(listing.price as nat)) + " Ft\n"@ + md_link(
        listing.url@,
        md_escaped(listing.title@),
    ) + "\n"@ + md_escaped(joined_cities(listing.cities@.map_values(|c: String| c@)))
        + "\n\\- "@ + md_escaped(listing.seller_name@) + " \\(\\+"@ + md_escaped(
        dec_digits(listing.seller_ratings as nat),
    ) + "\\)\n\nFrom subscription:\n"@ + md_link(sub.url@, md_escaped(display_name(sub)))
        + " \\("@ + md_escaped(dec_digits(sub.id as nat)) + "\\):\n"@ + md_escaped(
        price_range_text(metadata.min_price, metadata.max_price),
    ) + "\n"@
}

/// Joins a listing's cities with ", ".
fn join_cities(cities: &Vec<String>) -> (r: Vec<char>)
    ensures
        r@ == joined_cities(cities@.map_values(|c: String| c@)),
{
    let ghost view = cities@.map_values(|c: String| c@);
    let mut r: Vec<char> = Vec::new();
    let mut i: usize = 0;
    proof {
        assert(view.take(0) =~= Seq::<Seq<char>>::empty());
    }
    while i < cities.len()
        invariant
            i <= cities@.len(),
            view == cities@.map_values(|c: String| c@),
            r@ == joined_cities(view.take(i as int)),
        decreases cities@.len() - i,
    {
        if i > 0 {
            crate::commands::append_lit(&mut r, ", ");
        }
        let chars = str_chars(cities[i].as_str());
        crate::commands::append_chars(&mut r, &chars);
        i = i + 1;
        proof {
            assert(view.take(i as int).drop_last() =~= view.take(i - 1));
            assert(view.take(i as int).last() == view[i - 1]);
            assert(r@ =~= joined_cities(view.take(i as int)));
        }
    }
    proof {
        assert(view.take(view.len() as int) =~= view);
    }
    r
}

/// Renders the price-range line, before escaping.
fn render_price_range(min_price: Option<u64>, max_price: Option<u64>) -> (r: Vec<char>)
    ensures
        r@ == price_range_text(min_price, max_price),
{
    let mut r: Vec<char> = Vec::new();
    match (min_price, max_price) {
        (Some(lo), Some(hi)) => {
            crate::commands::append_lit(&mut r, "between ");
            let lo_digits = u64_digits(lo);
            crate::commands::append_chars(&mut r, &lo_digits);
            crate::commands::append_lit(&mut r, " - ");
            let hi_digits = u64_digits(hi);
            crate::commands::append_chars(&mut r, &hi_digits);
            crate::commands::append_lit(&mut r, " Ft");
        },
        (Some(lo), None) => {
            crate::commands::append_lit(&mut r, "above ");
            let lo_digits = u64_digits(lo);
            crate::commands::append_chars(&mut r, &lo_digits);
            crate::commands::append_lit(&mut r, " Ft");
        },
        (None, Some(hi)) => {
            crate::commands::append_lit(&mut r, "under ");
            let hi_digits = u64_digits(hi);
            crate::commands::append_chars(&mut r, &hi_digits);
            crate::commands::append_lit(&mut r, " Ft");
        },
        (None, None) => {},
    }
    proof {
        assert(r@ =~= price_range_text(min_price, max_price));
    }
    r
}

/// Appends `[text](escaped url)` to `dst`.
fn append_link(dst: &mut Vec<char>, url: &Vec<char>, text: &Vec<char>)
    ensures
        final(dst)@ == old(dst)@ + md_link(url@, text@),
{
    crate::commands::append_lit(dst, "[");
    crate::commands::append_chars(dst, text);
    crate::commands::append_lit(dst, "](");
    let escaped = escape_markdown_url(url);
    crate::commands::append_chars(dst, &escaped);
    crate::commands::append_lit(dst, ")");
    proof {
        assert(dst@ =~= old(dst)@ + md_link(url@, text@));
    }
}

/// Renders the Telegram notification for one new listing.
pub fn format_telegram_notification(
    sub: &Subscription,
    metadata: &ScrapeMetadata,
    listing: &Listing,
) -> (r: String)
    ensures
        r@ == telegram_notification(*sub, *metadata, *listing),
{
    let mut out: Vec<char> = Vec::new();
    crate::commands::append_lit(&mut out, "\n");
    let price_digits = u64_digits(listing.price);
    let price_escaped = escape_markdown(&price_digits);
    crate::commands::append_chars(&mut out, &price_escaped);
    crate::commands::append_lit(&mut out, " Ft\n");
    let title_chars = str_chars(listing.title.as_str());
    let title_escaped = escape_markdown(&title_chars);
    let url_chars = str_chars(listing.url.as_str());
    append_link(&mut out, &url_chars, &title_escaped);
    crate::commands::append_lit(&mut out, "\n");
    let cities = join_cities(&listing.cities);
    let cities_escaped = escape_markdown(&cities);
    crate::commands::append_chars(&mut out, &cities_escaped);
    crate::commands::append_lit(&mut out, "\n\\- ");
    let seller_chars = str_chars(listing.seller_name.as_str());
    let seller_escaped = escape_markdown(&seller_chars);
    crate::commands::append_chars(&mut out, &seller_escaped);
    crate::commands::append_lit(&mut out, " \\(\\+");
    let ratings_digits = u64_digits(listing.seller_ratings);
    let ratings_escaped = escape_markdown(&ratings_digits);
    crate::commands::append_chars(&mut out, &ratings_escaped);
    crate::commands::append_lit(&mut out, "\\)\n\nFrom subscription:\n");
    let name_chars = match &sub.name {
        Some(name) => str_chars(name.as_str()),
        None => str_chars("(unnamed)"),
    };
    let name_escaped = escape_markdown(&name_chars);
    let sub_url_chars = str_chars(sub.url.as_str());
    append_link(&mut out, &sub_url_chars, &name_escaped);
    crate::commands::append_lit(&mut out, " \\(");
    let id_digits = u64_digits(sub.id);
    let id_escaped = escape_markdown(&id_digits);
    crate::commands::append_chars(&mut out, &id_escaped);
    crate::commands::append_lit(&mut out, "\\):\n");
    let range = render_price_range(metadata.min_price, metadata.max_price);
    let range_escaped = escape_markdown(&range);
    crate::commands::append_chars(&mut out, &range_escaped);
    crate::commands::append_lit(&mut out, "\n");
    proof {
        assert(out@ =~= telegram_notification(*sub, *metadata, *listing));
    }
    chars_string(&out)
}

/// The Discord notification text for one listing. Discord renders the
/// same MarkdownV2-style escaping; headings use `##` and the small-print
/// subscription lines use `-#`.
pub open spec fn discord_notification(
    sub: Subscription,
    metadata: ScrapeMetadata,
    listing: Listing,
) -> Seq<char> {
    "\n## New: "@ + md_link(listing.url@, md_escaped(listing.title@)) + "\n## "@ + md_escaped(
        dec_digits(listing.price as nat),
    ) + " Ft\n"@ + md_escaped(joined_cities(listing.cities@.map_values(|c: String| c@)))
        + "\n\\- "@ + md_escaped(listing.seller_name@) + " \\(\\+"@ + md_escaped(
        dec_digits(listing.seller_ratings as nat),
    ) + "\\)\n\n-# From subscription:\n-# "@ + md_escaped(display_name(sub)) + " \\("@
        + md_escaped(dec_digits(sub.id as nat)) + "\\):\n"@ + md_escaped(
        price_range_text(metadata.min_price, metadata.max_price),
    ) + "\n"@
}

/// Renders the Discord notification for one new listing.
pub fn format_discord_notification(
    sub: &Subscription,
    metadata: &ScrapeMetadata,
    listing: &Listing,
) -> (r: String)
    ensures
        r@ == discord_notification(*sub, *metadata, *listing),
{
    let mut out: Vec<char> = Vec::new();
    crate::commands::append_lit(&mut out, "\n## New: ");
    let title_chars = str_chars(listing.title.as_str());
    let title_escaped = escape_markdown(&title_chars);
    let url_chars = str_chars(listing.url.as_str());
    append_link(&mut out, &url_chars, &title_escaped);
    crate::commands::append_lit(&mut out, "\n## ");
    let price_digits = u64_digits(listing.price);
    let price_escaped = escape_markdown(&price_digits);
    crate::commands::append_chars(&mut out, &price_escaped);
    crate::commands::append_lit(&mut out, " Ft\n");
    let cities = join_cities(&listing.cities);
    let cities_escaped = escape_markdown(&cities);
    crate::commands::append_chars(&mut out, &cities_escaped);
    crate::commands::append_lit(&mut out, "\n\\- ");
    let seller_chars = str_chars(listing.seller_name.as_str());
    let seller_escaped = escape_markdown(&seller_chars);
    crate::commands::append_chars(&mut out, &seller_escaped);
    crate::commands::append_lit(&mut out, " \\(\\+");
    let ratings_digits = u64_digits(listing.seller_ratings);
    let ratings_escaped = escape_markdown(&ratings_digits);
    crate::commands::append_chars(&mut out, &ratings_escaped);
    crate::commands::append_lit(&mut out, "\\)\n\n-# From subscription:\n-# ");
    let name_chars = match &sub.name {
        Some(name) => str_chars(name.as_str()),
        None => str_chars("(unnamed)"),
    };
    let name_escaped = escape_markdown(&name_chars);
    crate::commands::append_chars(&mut out, &name_escaped);
    crate::commands::append_lit(&mut out, " \\(");
    let id_digits = u64_digits(sub.id);
    let id_escaped = escape_markdown(&id_digits);
    crate::commands::append_chars(&mut out, &id_escaped);
    crate::commands::append_lit(&mut out, "\\):\n");
    let range = render_price_range(metadata.min_price, metadata.max_price);
    let range_escaped = escape_markdown(&range);
    crate::commands::append_chars(&mut out, &range_escaped);
    crate::commands::append_lit(&mut out, "\n");
    proof {
        assert(out@ =~= discord_notification(*sub, *metadata, *listing));
    }
    chars_string(&out)
}

/// The transport a channel belongs to.
#[derive(Clone, Copy, Debug, PartialEq, Eq, Structural)]
pub enum TransportKind {
    Telegram,
    Discord,
    Terminal,
}

/// The transport of a channel id.
pub open spec fn spec_transport_of(channel: ChannelId) -> TransportKind {
    match channel {
        ChannelId::Terminal => TransportKind::Terminal,
        ChannelId::Telegram { .. } => TransportKind::Telegram,
        ChannelId::Discord { .. } => TransportKind::Discord,
    }
}

/// One optional notifier handle per transport; routing is a match on the
/// channel's tag, not a discovery.
#[derive(Clone)]
pub struct NotifierRegistry<T> {
    pub telegram: Option<T>,
    pub discord: Option<T>,
    pub terminal: Option<T>,
}

impl<T> NotifierRegistry<T> {
    /// A registry with no transports wired.
    pub fn empty() -> (r: NotifierRegistry<T>)
        ensures
            r.telegram is None && r.discord is None && r.terminal is None,
    {
        NotifierRegistry { telegram: None, discord: None, terminal: None }
    }

    /// The handle that serves `channel`, by the channel's transport tag.
    pub fn notifier_for(&self, channel: &ChannelId) -> (r: Option<&T>)
        ensures
            match spec_transport_of(*channel) {
                TransportKind::Telegram => match (r, &self.telegram) {
                    (Some(got), Some(have)) => got == have,
                    (None, None) => true,
                    _ => false,
                },
                TransportKind::Discord => match (r, &self.discord) {
                    (Some(got), Some(have)) => got == have,
                    (None, None) => true,
                    _ => false,
                },
                TransportKind::Terminal => match (r, &self.terminal) {
                    (Some(got), Some(have)) => got == have,
                    (None, None) => true,
                    _ => false,
                },
            },
    {
        match channel {
            ChannelId::Telegram { .. } => self.telegram.as_ref(),
            ChannelId::Discord { .. } => self.discord.as_ref(),
            ChannelId::Terminal => self.terminal.as_ref(),
        }
    }
}

} // verus!
