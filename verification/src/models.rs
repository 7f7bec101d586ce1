//! Core data model: listings as parsed from the site, and subscriptions as
//! registered by users, together with the per-subscription runtime state.

use vstd::prelude::*;

use crate::calendar::Timestamp;

verus! {

/// The site-assigned identifier of a listing. Newer listings carry strictly
/// greater ids, so ids double as the ordering key for "newer than".
pub type ListingId = i64;

/// How a listing row is decorated on the search page.
#[derive(Clone, Copy, Debug, PartialEq, Eq, Structural)]
pub enum ListingType {
    Featured,
    Bazar,
    Regular,
}

/// One parsed ad. Ephemeral: listings are never persisted, only their ids
/// enter the runtime state as a watermark.
#[derive(Debug)]
pub struct Listing {
    pub id: ListingId,
    pub url: String,
    pub title: String,
    /// Price in forints; `0` means the listing is free.
    pub price: u64,
    pub cities: Vec<String>,
    /// Naive local time the listing was posted.
    pub date: Timestamp,
    /// Whether the listing's price is marked as frozen.
    pub frozen: bool,
    pub seller_name: String,
    /// Only positive ratings are counted; `0` when the seller has none shown.
    pub seller_ratings: u64,
    pub seller_url: String,
    pub listing_type: ListingType,
}

/// Identifies the channel a notification is sent to, per transport.
#[derive(Clone, Copy, Debug, PartialEq, Eq, Structural)]
pub enum ChannelId {
    /// Standard output; intended for debugging but fully functional.
    Terminal,
    Telegram { chat_id: i64 },
    Discord { guild_id: i64, channel_id: i64 },
}

/// Identifies the user who created a subscription. Informational for now,
/// kept for a future permission system.
#[derive(Clone, Copy, Debug, PartialEq, Eq)]
pub enum OwnerId {
    Telegram { user_id: Option<u64> },
    Discord { user_id: i64 },
}

/// Per-subscription polling configuration.
#[derive(Clone, Copy, Debug, PartialEq, Eq, Structural)]
pub struct SubscriptionConfig {
    /// How often the site is checked, in seconds.
    pub interval: u64,
    pub show_bazar: bool,
    pub show_featured: bool,
    pub show_regular: bool,
}

impl SubscriptionConfig {
    /// The configuration a fresh subscription starts with: a 60-second
    /// interval, bazar rows hidden, featured and regular rows shown.
    pub open spec fn spec_default() -> SubscriptionConfig {
        SubscriptionConfig { interval: 60, show_bazar: false, show_featured: true, show_regular: true }
    }

    /// The configuration a fresh subscription starts with.
    pub fn default() -> (c: SubscriptionConfig)
        ensures
            c == SubscriptionConfig::spec_default(),
    {
        SubscriptionConfig { interval: 60, show_bazar: false, show_featured: true, show_regular: true }
    }
}

/// A user-registered subscription: what to scrape and where to notify.
#[derive(Debug, PartialEq)]
pub struct Subscription {
    /// Process-wide unique, user-visible, allocated monotonically.
    pub id: u64,
    /// Best-effort display name derived from the URL.
    pub name: Option<String>,
    /// Channels notifications fan out to; non-empty by construction.
    pub channels: Vec<ChannelId>,
    pub owner: OwnerId,
    /// The scraped URL; stored as given, not validated.
    pub url: String,
    pub config: SubscriptionConfig,
    /// Naive local time of creation; immutable afterwards.
    pub created_at: Timestamp,
}

impl Subscription {
    /// Whether `channel` is one of the subscription's notification targets.
    pub open spec fn spec_has_channel(&self, channel: ChannelId) -> bool {
        self.channels@.contains(channel)
    }

    /// Linear scan of the channel list.
    pub fn has_channel(&self, channel: ChannelId) -> (r: bool)
        ensures
            r == self.spec_has_channel(channel),
    {
        let mut i: usize = 0;
        while i < self.channels.len()
            invariant
                i <= self.channels@.len(),
                forall|j: int| 0 <= j < i ==> self.channels@[j] != channel,
            decreases self.channels@.len() - i,
        {
            if self.channels[i] == channel {
                return true;
            }
            i = i + 1;
        }
        false
    }
}

impl Subscription {
    /// A field-for-field copy. The copy's channel list and strings carry
    /// the same contents as the original's; the subscription is handed out
    /// this way where a caller needs an owned snapshot.
    pub fn duplicate(&self) -> (res: Subscription)
        ensures
            res.id == self.id,
            opt_view(res.name) == opt_view(self.name),
            res.channels@ == self.channels@,
            res.owner == self.owner,
            res.url@ == self.url@,
            res.config == self.config,
            res.created_at == self.created_at,
    {
        Subscription {
            id: self.id,
            name: clone_opt_string(&self.name),
            channels: clone_channel_list(&self.channels),
            owner: self.owner,
            url: self.url.clone(),
            config: self.config,
            created_at: self.created_at,
        }
    }
}

/// An element-for-element copy of a channel list.
pub fn clone_channel_list(v: &Vec<ChannelId>) -> (r: Vec<ChannelId>)
    ensures
        r@ == v@,
{
    let mut r: Vec<ChannelId> = Vec::new();
    let mut i: usize = 0;
    while i < v.len()
        invariant
            i <= v@.len(),
            r@ == v@.take(i as int),
        decreases v@.len() - i,
    {
        r.push(v[i]);
        i = i + 1;
        proof {
            assert(r@ =~= v@.take(i as int));
        }
    }
    proof {
        assert(r@ =~= v@);
    }
    r
}

/// A copy of an optional string with the same contents.
pub fn clone_opt_string(o: &Option<String>) -> (r: Option<String>)
    ensures
        r == *o,
{
    match o {
        Some(s) => Some(s.clone()),
        None => None,
    }
}

/// The view of an optional string, for contracts that compare derived
/// names.
pub open spec fn opt_view(o: Option<String>) -> Option<Seq<char>> {
    match o {
        Some(s) => Some(s@),
        None => None,
    }
}

/// Runtime state of one subscription, keyed by its id: the watermark of the
/// newest listing id ever observed. Created on the first scrape that sees a
/// listing, advanced monotonically afterwards, dropped with the subscription.
#[derive(Clone, Copy, Debug, PartialEq, Eq)]
pub struct SubscriptionState {
    pub subscription_id: u64,
    pub last_seen: Option<ListingId>,
}

} // verus!
