//! The two persisted collections: the subscription catalog and the
//! per-subscription runtime state.
//!
//! Both stores are plain in-memory values here; callers persist the
//! snapshots returned by `entries` after each mutation, and construct a
//! store from the loaded collection on startup. Loading what was saved
//! rebuilds an equal store: see `lemma_subscription_round_trip`.

use vstd::prelude::*;

use crate::models::{ChannelId, ListingId, OwnerId, Subscription, SubscriptionConfig,
    SubscriptionState};
use crate::calendar::Timestamp;
use crate::clock::local_now;
use crate::naming::derive_name;
use crate::text::chars_string;

verus! {

/// No two subscriptions of `s` share an id.
pub open spec fn unique_ids(s: Seq<Subscription>) -> bool {
    forall|i: int, j: int| 0 <= i < j < s.len() ==> s[i].id != s[j].id
}

/// Whether some subscription of `s` carries `id`.
pub open spec fn has_id(s: Seq<Subscription>, id: u64) -> bool {
    exists|i: int| 0 <= i < s.len() && #[trigger] s[i].id == id
}

/// The first subscription of `s` carrying `id`, if any. Under `unique_ids`
/// it is the only one.
pub open spec fn find_by_id(s: Seq<Subscription>, id: u64) -> Option<Subscription>
    decreases s.len(),
{
    if s.len() == 0 {
        None
    } else if s[0].id == id {
        Some(s[0])
    } else {
        find_by_id(s.skip(1), id)
    }
}

/// `find_by_id` succeeds exactly on the ids present in `s`, with an entry
/// of `s` carrying that id.
pub proof fn lemma_find_by_id(s: Seq<Subscription>, id: u64)
    ensures
        has_id(s, id) <==> find_by_id(s, id) is Some,
        match find_by_id(s, id) {
            Some(sub) => sub.id == id && s.contains(sub),
            None => true,
        },
    decreases s.len(),
{
    if s.len() > 0 {
        lemma_find_by_id(s.skip(1), id);
        if s[0].id != id {
            if has_id(s.skip(1), id) {
                let i = choose|i: int| 0 <= i < s.skip(1).len() && #[trigger] s.skip(1)[i].id == id;
                assert(s[i + 1].id == id);
            }
            if has_id(s, id) {
                let i = choose|i: int| 0 <= i < s.len() && #[trigger] s[i].id == id;
                assert(s.skip(1)[i - 1].id == id);
            }
            match find_by_id(s.skip(1), id) {
                Some(sub) => {
                    let k = choose|k: int| 0 <= k < s.skip(1).len() && s.skip(1)[k] == sub;
                    assert(s[k + 1] == sub);
                },
                None => {},
            }
        }
    }
}

/// Linear scan for an id.
fn contains_id(subs: &Vec<Subscription>, id: u64) -> (r: bool)
    ensures
        r == has_id(subs@, id),
{
    let mut i: usize = 0;
    while i < subs.len()
        invariant
            i <= subs@.len(),
            forall|j: int| 0 <= j < i ==> #[trigger] subs@[j].id != id,
        decreases subs@.len() - i,
    {
        if subs[i].id == id {
            return true;
        }
        i = i + 1;
    }
    false
}

/// A sequence none of whose entries carry `id` filters to itself.
proof fn lemma_filter_keeps_all(s: Seq<Subscription>, id: u64)
    requires
        forall|k: int| 0 <= k < s.len() ==> #[trigger] s[k].id != id,
    ensures
        s.filter(|x: Subscription| x.id != id) == s,
    decreases s.len(),
{
    reveal_with_fuel(Seq::filter, 2);
    if s.len() > 0 {
        lemma_filter_keeps_all(s.drop_last(), id);
        assert(s.filter(|x: Subscription| x.id != id) =~= s);
    } else {
        assert(s.filter(|x: Subscription| x.id != id) =~= s);
    }
}

/// Filtering out the only entry carrying `id` removes exactly its slot.
proof fn lemma_filter_out_unique(s: Seq<Subscription>, at: int, id: u64)
    requires
        0 <= at < s.len(),
        s[at].id == id,
        forall|k: int| 0 <= k < s.len() && k != at ==> #[trigger] s[k].id != id,
    ensures
        s.filter(|x: Subscription| x.id != id) == s.subrange(0, at) + s.subrange(
            at + 1,
            s.len() as int,
        ),
    decreases s.len(),
{
    reveal_with_fuel(Seq::filter, 2);
    if at == s.len() - 1 {
        assert(forall|k: int|
            0 <= k < s.drop_last().len() ==> #[trigger] s.drop_last()[k].id != id);
        lemma_filter_keeps_all(s.drop_last(), id);
        assert(s.filter(|x: Subscription| x.id != id) =~= s.subrange(0, at) + s.subrange(
            at + 1,
            s.len() as int,
        ));
    } else {
        assert(forall|k: int|
            0 <= k < s.drop_last().len() && k != at ==> #[trigger] s.drop_last()[k].id != id);
        lemma_filter_out_unique(s.drop_last(), at, id);
        assert(s.filter(|x: Subscription| x.id != id) =~= s.subrange(0, at) + s.subrange(
            at + 1,
            s.len() as int,
        ));
    }
}

/// In-memory catalog of subscriptions plus the id allocator.
pub struct SubscriptionStore {
    pub subscriptions: Vec<Subscription>,
    pub next_id: u64,
}

impl SubscriptionStore {
    /// The catalog as a sequence; its order carries no meaning.
    pub open spec fn subs(&self) -> Seq<Subscription> {
        self.subscriptions@
    }

    /// The id the next added subscription will get.
    pub open spec fn spec_next_id(&self) -> u64 {
        self.next_id
    }

    /// Well-formed: ids are unique and every id is below the allocator, so
    /// a freshly allocated id never collides with a live one.
    pub open spec fn wf(&self) -> bool {
        &&& unique_ids(self.subs())
        &&& forall|i: int|
            0 <= i < self.subs().len() ==> #[trigger] self.subs()[i].id < self.next_id
        &&& self.next_id >= 1
    }

    /// Builds the store from a loaded collection: a collection with unique
    /// ids (the only kind a store ever saves) is taken over as it stands,
    /// and the id allocator resumes above the highest loaded id, at 1 when
    /// the collection is empty. A duplicated id keeps its first entry.
    pub fn new(loaded: Vec<Subscription>) -> (s: SubscriptionStore)
        requires
            forall|i: int| 0 <= i < loaded@.len() ==> #[trigger] loaded@[i].id < u64::MAX,
        ensures
            s.wf(),
            unique_ids(loaded@) ==> s.subs() == loaded@,
            forall|k: int| 0 <= k < s.subs().len() ==> loaded@.contains(#[trigger] s.subs()[k]),
            loaded@.len() == 0 ==> s.spec_next_id() == 1,
            forall|i: int| 0 <= i < loaded@.len() ==> #[trigger] loaded@[i].id < s.spec_next_id(),
            loaded@.len() > 0 ==> exists|i: int|
                0 <= i < loaded@.len() && s.spec_next_id() == #[trigger] loaded@[i].id + 1,
    {
        let ghost orig = loaded@;
        let mut work = loaded;
        let mut subscriptions: Vec<Subscription> = Vec::new();
        let mut next_id: u64 = 1;
        let ghost mut i: int = 0;
        proof {
            assert(work@ =~= orig.skip(0));
        }
        while work.len() > 0
            invariant
                0 <= i,
                i + work@.len() == orig.len(),
                work@ == orig.skip(i),
                forall|k: int| 0 <= k < orig.len() ==> #[trigger] orig[k].id < u64::MAX,
                next_id >= 1,
                unique_ids(subscriptions@),
                unique_ids(orig.take(i)) ==> subscriptions@ == orig.take(i),
                forall|k: int|
                    0 <= k < subscriptions@.len() ==> orig.take(i).contains(
                        #[trigger] subscriptions@[k],
                    ),
                forall|k: int| 0 <= k < i ==> #[trigger] orig[k].id < next_id,
                forall|k: int|
                    0 <= k < subscriptions@.len() ==> #[trigger] subscriptions@[k].id < next_id,
                i == 0 ==> next_id == 1,
                i > 0 ==> exists|k: int| 0 <= k < i && next_id == #[trigger] orig[k].id + 1,
            decreases work@.len(),
        {
            let sub = work.remove(0);
            proof {
                assert(sub == orig[i]);
                assert(work@ =~= orig.skip(i + 1));
            }
            let sub_id = sub.id;
            let ghost before = subscriptions@;
            let present = contains_id(&subscriptions, sub_id);
            if !present {
                subscriptions.push(sub);
            }
            if sub_id >= next_id {
                next_id = sub_id + 1;
            }
            proof {
                i = i + 1;
                let taken = orig.take(i);
                assert(taken.drop_last() =~= orig.take(i - 1));
                assert(taken.last() == orig[i - 1]);
                if unique_ids(taken) {
                    assert(unique_ids(orig.take(i - 1))) by {
                        assert forall|a: int, b: int|
                            0 <= a < b < i - 1 implies #[trigger] orig.take(i - 1)[a].id
                            != #[trigger] orig.take(i - 1)[b].id by {
                            assert(taken[a].id != taken[b].id);
                        }
                    }
                    if present {
                        let k = choose|k: int|
                            0 <= k < before.len() && #[trigger] before[k].id == orig[i - 1].id;
                        assert(orig.take(i - 1).contains(before[k]));
                        let m = choose|m: int|
                            0 <= m < i - 1 && #[trigger] orig.take(i - 1)[m] == before[k];
                        assert(taken[m].id == taken[i - 1].id);
                        assert(false);
                    }
                    assert(subscriptions@ =~= taken);
                }
                assert forall|k: int| 0 <= k < subscriptions@.len() implies taken.contains(
                    #[trigger] subscriptions@[k],
                ) by {
                    if k < before.len() {
                        assert(orig.take(i - 1).contains(before[k]));
                        let m = choose|m: int|
                            0 <= m < i - 1 && #[trigger] orig.take(i - 1)[m] == before[k];
                        assert(taken[m] == subscriptions@[k]);
                    } else {
                        assert(taken[i - 1] == subscriptions@[k]);
                    }
                }
            }
        }
        proof {
            assert(orig.take(orig.len() as int) =~= orig);
            assert forall|k: int|
                0 <= k < subscriptions@.len() implies orig.contains(
                #[trigger] subscriptions@[k],
            ) by {
                assert(orig.take(i).contains(subscriptions@[k]));
                let m = choose|m: int| 0 <= m < i && #[trigger] orig.take(i)[m] == subscriptions@[k];
                assert(orig[m] == subscriptions@[k]);
            }
        }
        SubscriptionStore { subscriptions, next_id }
    }

    /// The full catalog, for persisting and for startup replay.
    pub fn entries(&self) -> (r: &Vec<Subscription>)
        ensures
            r@ == self.subs(),
    {
        &self.subscriptions
    }

    /// Registers a subscription created now: the name is derived from the
    /// URL, the invoking channel becomes the sole notification target, and
    /// the returned id is fresh — strictly greater than every id this store
    /// ever handed out before, so no live subscription shares it.
    pub fn add_subscription(&mut self, url: String, channel: ChannelId, owner: OwnerId) -> (id:
        u64)
        requires
            old(self).wf(),
            old(self).spec_next_id() < u64::MAX,
        ensures
            final(self).wf(),
            id == old(self).spec_next_id(),
            final(self).spec_next_id() == id + 1,
            final(self).subs().len() == old(self).subs().len() + 1,
            final(self).subs().take(old(self).subs().len() as int) == old(self).subs(),
            ({
                let sub = final(self).subs().last();
                &&& sub.id == id
                &&& crate::models::opt_view(sub.name) == derive_name(url@)
                &&& sub.channels@ == seq![channel]
                &&& sub.owner == owner
                &&& sub.url@ == url@
                &&& sub.config == SubscriptionConfig::spec_default()
                &&& sub.created_at.wf()
            }),
    {
        let created_at = local_now();
        self.add_subscription_at(url, channel, owner, created_at)
    }

    /// `add_subscription` with the creation instant passed in, so that the
    /// whole effect is determined by the arguments.
    pub fn add_subscription_at(
        &mut self,
        url: String,
        channel: ChannelId,
        owner: OwnerId,
        created_at: Timestamp,
    ) -> (id: u64)
        requires
            old(self).wf(),
            old(self).spec_next_id() < u64::MAX,
        ensures
            final(self).wf(),
            id == old(self).spec_next_id(),
            final(self).spec_next_id() == id + 1,
            final(self).subs().len() == old(self).subs().len() + 1,
            final(self).subs().take(old(self).subs().len() as int) == old(self).subs(),
            ({
                let sub = final(self).subs().last();
                &&& sub.id == id
                &&& crate::models::opt_view(sub.name) == derive_name(url@)
                &&& sub.channels@ == seq![channel]
                &&& sub.owner == owner
                &&& sub.url@ == url@
                &&& sub.config == SubscriptionConfig::spec_default()
                &&& sub.created_at == created_at
            }),
    {
        let name = match crate::naming::name_from_url(&url) {
            Some(n) => Some(chars_string(&n)),
            None => None,
        };
        let mut channels: Vec<ChannelId> = Vec::new();
        channels.push(channel);
        proof {
            assert(channels@ =~= seq![channel]);
        }
        let id = self.next_id;
        let sub = Subscription {
            id,
            name,
            channels,
            owner,
            url,
            config: SubscriptionConfig::default(),
            created_at,
        };
        self.subscriptions.push(sub);
        self.next_id = self.next_id + 1;
        id
    }

    /// Drops the subscription carrying `id`, reporting whether one did.
    /// Every other subscription stays; under `wf` there is at most one.
    pub fn remove_subscription(&mut self, id: u64) -> (removed: bool)
        requires
            old(self).wf(),
        ensures
            final(self).wf(),
            removed == has_id(old(self).subs(), id),
            !has_id(final(self).subs(), id),
            final(self).spec_next_id() == old(self).spec_next_id(),
            forall|k: int|
                0 <= k < final(self).subs().len() ==> old(self).subs().contains(
                    #[trigger] final(self).subs()[k],
                ),
            forall|k: int|
                0 <= k < old(self).subs().len() && old(self).subs()[k].id != id ==> final(self).subs().contains(#[trigger] old(self).subs()[k]),
            !removed ==> final(self).subs() == old(self).subs(),
            removed ==> final(self).subs().len() + 1 == old(self).subs().len(),
            final(self).subs() == old(self).subs().filter(|s: Subscription| s.id != id),
    {
        let ghost before = self.subscriptions@;
        let mut i: usize = 0;
        while i < self.subscriptions.len()
            invariant
                old(self).wf(),
                before == old(self).subs(),
                i <= self.subs().len(),
                self.subscriptions@ == before,
                self.next_id == old(self).next_id,
                forall|j: int| 0 <= j < i ==> #[trigger] before[j].id != id,
            decreases self.subs().len() - i,
        {
            if self.subscriptions[i].id == id {
                self.subscriptions.remove(i);
                proof {
                    assert(self.subscriptions@ =~= before.subrange(0, i as int) + before.subrange(
                        i + 1,
                        before.len() as int,
                    ));
                    let after = self.subscriptions@;
                    assert forall|a: int, b: int|
                        0 <= a < b < after.len() implies #[trigger] after[a].id
                        != #[trigger] after[b].id by {
                        let fa: int = if a < i { a } else { a + 1 };
                        let fb: int = if b < i { b } else { b + 1 };
                        assert(after[a] == before[fa]);
                        assert(after[b] == before[fb]);
                    }
                    assert forall|k: int| 0 <= k < after.len() implies #[trigger] after[k].id
                        < self.next_id by {
                        if k < i {
                            assert(after[k] == before[k]);
                        } else {
                            assert(after[k] == before[k + 1]);
                        }
                    }
                    assert forall|k: int|
                        0 <= k < after.len() implies before.contains(#[trigger] after[k]) by {
                        if k < i {
                            assert(after[k] == before[k]);
                        } else {
                            assert(after[k] == before[k + 1]);
                        }
                    }
                    assert forall|k: int|
                        0 <= k < before.len() && before[k].id != id implies after.contains(
                        #[trigger] before[k],
                    ) by {
                        if k < i {
                            assert(after[k] == before[k]);
                        } else {
                            assert(k > i);
                            assert(after[k - 1] == before[k]);
                        }
                    }
                    assert(has_id(before, id));
                    assert(forall|k: int|
                        0 <= k < before.len() && k != i ==> #[trigger] before[k].id != id);
                    lemma_filter_out_unique(before, i as int, id);
                    assert forall|m: int| 0 <= m < after.len() implies #[trigger] after[m].id
                        != id by {
                        if m < i {
                            assert(after[m] == before[m]);
                        } else {
                            assert(after[m] == before[m + 1]);
                        }
                    }
                    assert(!has_id(after, id));
                }
                return true;
            }
            i = i + 1;
        }
        proof {
            assert(!has_id(self.subscriptions@, id));
            assert(self.subscriptions@ =~= old(self).subs());
            lemma_filter_keeps_all(self.subscriptions@, id);
        }
        false
    }

    /// Drops the subscription carrying `id` only when it targets `channel`:
    /// a deletion issued from a channel the subscription does not notify
    /// leaves the catalog unchanged.
    pub fn remove_for_channel(&mut self, id: u64, channel: ChannelId) -> (removed: bool)
        requires
            old(self).wf(),
        ensures
            final(self).wf(),
            removed == (match find_by_id(old(self).subs(), id) {
                Some(sub) => sub.spec_has_channel(channel),
                None => false,
            }),
            removed ==> !has_id(final(self).subs(), id) && final(self).subs().len() + 1 == old(
                self,
            ).subs().len(),
            removed ==> final(self).subs() == old(self).subs().filter(
                |s: Subscription| s.id != id,
            ),
            !removed ==> final(self).subs() == old(self).subs(),
            final(self).spec_next_id() == old(self).spec_next_id(),
            forall|k: int|
                0 <= k < final(self).subs().len() ==> old(self).subs().contains(
                    #[trigger] final(self).subs()[k],
                ),
            forall|k: int|
                0 <= k < old(self).subs().len() && old(self).subs()[k].id != id ==> final(self).subs().contains(#[trigger] old(self).subs()[k]),
    {
        let targets_channel = match self.get_subscription(id) {
            Some(sub) => sub.has_channel(channel),
            None => false,
        };
        proof {
            lemma_find_by_id(self.subs(), id);
        }
        if targets_channel {
            let removed = self.remove_subscription(id);
            removed
        } else {
            false
        }
    }

    /// Looks the subscription carrying `id` up.
    pub fn get_subscription(&self, id: u64) -> (r: Option<&Subscription>)
        ensures
            match r {
                Some(sub) => find_by_id(self.subs(), id) == Some(*sub),
                None => find_by_id(self.subs(), id) is None,
            },
    {
        let ghost whole = self.subs();
        let mut i: usize = 0;
        proof {
            assert(whole.skip(0) =~= whole);
        }
        while i < self.subscriptions.len()
            invariant
                i <= whole.len(),
                whole == self.subs(),
                find_by_id(whole, id) == find_by_id(whole.skip(i as int), id),
            decreases whole.len() - i,
        {
            if self.subscriptions[i].id == id {
                proof {
                    assert(whole.skip(i as int)[0] == whole[i as int]);
                }
                return Some(&self.subscriptions[i]);
            }
            proof {
                assert(whole.skip(i as int).skip(1) =~= whole.skip(i + 1));
            }
            i = i + 1;
        }
        proof {
            assert(whole.skip(i as int).len() == 0);
        }
        None
    }

    /// All subscriptions that notify `channel`, in catalog order.
    pub fn list_by_channel(&self, channel: ChannelId) -> (r: Vec<&Subscription>)
        ensures
            r@.map_values(|s: &Subscription| *s) == self.subs().filter(
                |s: Subscription| s.spec_has_channel(channel),
            ),
    {
        let mut r: Vec<&Subscription> = Vec::new();
        let mut i: usize = 0;
        proof {
            reveal_with_fuel(Seq::filter, 2);
            assert(r@.map_values(|s: &Subscription| *s) =~= self.subs().take(0).filter(
                |s: Subscription| s.spec_has_channel(channel),
            ));
        }
        while i < self.subscriptions.len()
            invariant
                i <= self.subs().len(),
                r@.map_values(|s: &Subscription| *s) == self.subs().take(i as int).filter(
                    |s: Subscription| s.spec_has_channel(channel),
                ),
            decreases self.subs().len() - i,
        {
            let ghost prefix = self.subs().take(i as int);
            let sub = &self.subscriptions[i];
            if sub.has_channel(channel) {
                r.push(sub);
            }
            i = i + 1;
            proof {
                assert(self.subs().take(i as int).drop_last() =~= prefix);
                reveal_with_fuel(Seq::filter, 2);
                assert(r@.map_values(|s: &Subscription| *s) =~= self.subs().take(
                    i as int,
                ).filter(|s: Subscription| s.spec_has_channel(channel)));
            }
        }
        proof {
            assert(self.subs().take(self.subs().len() as int) =~= self.subs());
        }
        r
    }
}

/// No two live subscriptions share an id, and every id the store ever
/// handed out lies strictly below the allocator — so each newly assigned
/// id strictly exceeds every id assigned before it in this run.
pub proof fn lemma_unique_monotonic_ids(store: SubscriptionStore)
    requires
        store.wf(),
    ensures
        forall|i: int, j: int|
            0 <= i < j < store.subs().len() ==> store.subs()[i].id != store.subs()[j].id,
        forall|i: int|
            0 <= i < store.subs().len() ==> #[trigger] store.subs()[i].id
                < store.spec_next_id(),
{
}

/// Loading the snapshot a well-formed store saves rebuilds the same
/// catalog. A well-formed store always has unique ids, so the identity
/// clause of `SubscriptionStore::new` (here a premise, there an ensures
/// over the loaded collection) applies to every snapshot it saves; the
/// reloaded id allocator resumes at the highest live id plus one.
pub proof fn lemma_subscription_round_trip(store: SubscriptionStore, reloaded: SubscriptionStore)
    requires
        store.wf(),
        // What `SubscriptionStore::new(store.entries())` ensures of its result:
        reloaded.wf(),
        unique_ids(store.subs()) ==> reloaded.subs() == store.subs(),
    ensures
        reloaded.subs() == store.subs(),
{
}

/// Channel-scoped deletion: a `/del` issued from a channel removes a
/// subscription only when that channel is one of its notification
/// targets. The premises are what `remove_for_channel` ensures; the
/// conclusion is that every subscription that does not notify the channel
/// survives, and that nothing at all changes unless the target notified it.
pub proof fn lemma_channel_scoped_deletion(
    before: Seq<Subscription>,
    after: Seq<Subscription>,
    id: u64,
    channel: ChannelId,
    removed: bool,
)
    requires
        unique_ids(before),
        removed == (match find_by_id(before, id) {
            Some(sub) => sub.spec_has_channel(channel),
            None => false,
        }),
        removed ==> after == before.filter(|s: Subscription| s.id != id),
        !removed ==> after == before,
    ensures
        forall|k: int|
            0 <= k < before.len() && !(#[trigger] before[k]).spec_has_channel(channel)
                ==> after.contains(before[k]),
        !removed ==> after == before,
{
    if removed {
        lemma_find_by_id(before, id);
        let target = find_by_id(before, id)->Some_0;
        assert forall|k: int|
            0 <= k < before.len() && !(#[trigger] before[k]).spec_has_channel(channel)
                implies after.contains(before[k]) by {
            assert(before[k] != target);
            let t = choose|t: int| 0 <= t < before.len() && before[t] == target;
            if before[k].id == id {
                assert(before[t].id == id);
                assert(k == t);
                assert(false);
            }
            before.lemma_filter_contains(|s: Subscription| s.id != id, k);
        }
    } else {
        assert forall|k: int|
            0 <= k < before.len() && !(#[trigger] before[k]).spec_has_channel(channel)
                implies after.contains(before[k]) by {
            assert(after[k] == before[k]);
        }
    }
}

/// Loading the snapshot a well-formed runtime-state table saves rebuilds
/// the same table, by the same argument.
pub proof fn lemma_state_round_trip(store: RuntimeStateStore, reloaded: RuntimeStateStore)
    requires
        store.wf(),
        // What `RuntimeStateStore::new(store.entries())` ensures of its result:
        unique_state_ids(store.states_seq()) ==> reloaded.states_seq() == store.states_seq(),
    ensures
        reloaded.states_seq() == store.states_seq(),
{
}

/// Per-subscription watermark table.
pub struct RuntimeStateStore {
    pub states: Vec<SubscriptionState>,
}

/// No two states of `s` belong to the same subscription.
pub open spec fn unique_state_ids(s: Seq<SubscriptionState>) -> bool {
    forall|i: int, j: int| 0 <= i < j < s.len() ==> s[i].subscription_id != s[j].subscription_id
}

/// Whether some state of `s` belongs to subscription `id`.
pub open spec fn has_state_id(s: Seq<SubscriptionState>, id: u64) -> bool {
    exists|i: int| 0 <= i < s.len() && #[trigger] s[i].subscription_id == id
}

/// The first state of `s` for subscription `id`, if any.
pub open spec fn find_state(s: Seq<SubscriptionState>, id: u64) -> Option<SubscriptionState>
    decreases s.len(),
{
    if s.len() == 0 {
        None
    } else if s[0].subscription_id == id {
        Some(s[0])
    } else {
        find_state(s.skip(1), id)
    }
}

impl RuntimeStateStore {
    /// The table as a sequence; its order carries no meaning.
    pub open spec fn states_seq(&self) -> Seq<SubscriptionState> {
        self.states@
    }

    /// Well-formed: one state per subscription.
    pub open spec fn wf(&self) -> bool {
        unique_state_ids(self.states_seq())
    }

    /// Builds the table from a loaded collection; a duplicated subscription
    /// id keeps its first entry (a saved collection never has one).
    pub fn new(loaded: Vec<SubscriptionState>) -> (s: RuntimeStateStore)
        ensures
            s.wf(),
            unique_state_ids(loaded@) ==> s.states_seq() == loaded@,
            forall|k: int|
                0 <= k < s.states_seq().len() ==> loaded@.contains(#[trigger] s.states_seq()[k]),
    {
        let mut states: Vec<SubscriptionState> = Vec::new();
        let mut i: usize = 0;
        while i < loaded.len()
            invariant
                i <= loaded@.len(),
                unique_state_ids(states@),
                unique_state_ids(loaded@.take(i as int)) ==> states@ == loaded@.take(i as int),
                forall|k: int|
                    0 <= k < states@.len() ==> loaded@.take(i as int).contains(
                        #[trigger] states@[k],
                    ),
            decreases loaded@.len() - i,
        {
            let st = loaded[i];
            let ghost before = states@;
            let mut j: usize = 0;
            let mut present = false;
            while j < states.len()
                invariant
                    j <= states@.len(),
                    states@ == before,
                    st == loaded@[i as int],
                    i < loaded@.len(),
                    present == exists|k: int|
                        0 <= k < j && #[trigger] before[k].subscription_id == st.subscription_id,
                decreases states@.len() - j,
            {
                if states[j].subscription_id == st.subscription_id {
                    present = true;
                }
                j = j + 1;
            }
            if !present {
                states.push(st);
            }
            i = i + 1;
            proof {
                let taken = loaded@.take(i as int);
                assert(taken.drop_last() =~= loaded@.take(i - 1));
                assert(taken.last() == loaded@[i - 1]);
                if unique_state_ids(taken) {
                    assert(unique_state_ids(loaded@.take(i - 1))) by {
                        assert forall|a: int, b: int|
                            0 <= a < b < i - 1 implies #[trigger] loaded@.take(
                            i - 1,
                        )[a].subscription_id != #[trigger] loaded@.take(
                            i - 1,
                        )[b].subscription_id by {
                            assert(taken[a].subscription_id != taken[b].subscription_id);
                        }
                    }
                    if present {
                        let k = choose|k: int|
                            0 <= k < before.len() && #[trigger] before[k].subscription_id
                                == loaded@[i - 1].subscription_id;
                        assert(loaded@.take(i - 1).contains(before[k]));
                        let m = choose|m: int|
                            0 <= m < i - 1 && #[trigger] loaded@.take(i - 1)[m] == before[k];
                        assert(taken[m].subscription_id == taken[i - 1].subscription_id);
                        assert(false);
                    }
                    assert(states@ =~= taken);
                }
                assert forall|k: int| 0 <= k < states@.len() implies taken.contains(
                    #[trigger] states@[k],
                ) by {
                    if k < before.len() {
                        assert(loaded@.take(i - 1).contains(before[k]));
                        let m = choose|m: int|
                            0 <= m < i - 1 && #[trigger] loaded@.take(i - 1)[m] == before[k];
                        assert(taken[m] == states@[k]);
                    } else {
                        assert(taken[i - 1] == states@[k]);
                    }
                }
            }
        }
        proof {
            assert(loaded@.take(loaded@.len() as int) =~= loaded@);
            assert forall|k: int|
                0 <= k < states@.len() implies loaded@.contains(#[trigger] states@[k]) by {
                assert(loaded@.take(loaded@.len() as int).contains(states@[k]));
                let m = choose|m: int|
                    0 <= m < loaded@.len() && #[trigger] loaded@.take(loaded@.len() as int)[m]
                        == states@[k];
                assert(loaded@[m] == states@[k]);
            }
        }
        RuntimeStateStore { states }
    }

    /// The full table, for persisting.
    pub fn entries(&self) -> (r: Vec<SubscriptionState>)
        ensures
            r@ == self.states_seq(),
    {
        let mut r: Vec<SubscriptionState> = Vec::new();
        let mut i: usize = 0;
        while i < self.states.len()
            invariant
                i <= self.states_seq().len(),
                r@ == self.states_seq().take(i as int),
            decreases self.states_seq().len() - i,
        {
            r.push(self.states[i]);
            i = i + 1;
            proof {
                assert(r@ =~= self.states_seq().take(i as int));
            }
        }
        proof {
            assert(r@ =~= self.states_seq());
        }
        r
    }

    /// Looks the state of subscription `id` up.
    pub fn get(&self, id: u64) -> (r: Option<SubscriptionState>)
        ensures
            r == find_state(self.states_seq(), id),
    {
        let ghost whole = self.states_seq();
        let mut i: usize = 0;
        proof {
            assert(whole.skip(0) =~= whole);
        }
        while i < self.states.len()
            invariant
                i <= whole.len(),
                whole == self.states_seq(),
                find_state(whole, id) == find_state(whole.skip(i as int), id),
            decreases whole.len() - i,
        {
            if self.states[i].subscription_id == id {
                proof {
                    assert(whole.skip(i as int)[0] == whole[i as int]);
                }
                return Some(self.states[i]);
            }
            proof {
                assert(whole.skip(i as int).skip(1) =~= whole.skip(i + 1));
            }
            i = i + 1;
        }
        proof {
            assert(whole.skip(i as int).len() == 0);
        }
        None
    }

    /// Upserts the watermark of subscription `id` to `Some(listing_id)`.
    /// Every other subscription's state is untouched. The caller passes a
    /// maximum over the old watermark, which keeps watermarks monotone.
    pub fn update_last_seen(&mut self, id: u64, listing_id: ListingId)
        requires
            old(self).wf(),
        ensures
            final(self).wf(),
            find_state(final(self).states_seq(), id) == Some(
                SubscriptionState { subscription_id: id, last_seen: Some(listing_id) },
            ),
            forall|other: u64|
                other != id ==> find_state(final(self).states_seq(), other) == find_state(
                    old(self).states_seq(),
                    other,
                ),
            final(self).states_seq().len() <= old(self).states_seq().len() + 1,
    {
        let ghost before = self.states@;
        let new_state = SubscriptionState { subscription_id: id, last_seen: Some(listing_id) };
        let mut i: usize = 0;
        while i < self.states.len()
            invariant
                before == old(self).states_seq(),
                unique_state_ids(before),
                i <= self.states@.len(),
                self.states@ == before,
                new_state == (SubscriptionState { subscription_id: id, last_seen: Some(listing_id) }),
                forall|j: int| 0 <= j < i ==> #[trigger] before[j].subscription_id != id,
            decreases self.states@.len() - i,
        {
            if self.states[i].subscription_id == id {
                self.states.set(i, new_state);
                proof {
                    let after = self.states@;
                    assert(after == before.update(i as int, new_state));
                    lemma_find_state_update(before, after, i as int, new_state, id);
                }
                return;
            }
            i = i + 1;
        }
        self.states.push(new_state);
        proof {
            let after = self.states@;
            assert forall|other: u64| other != id implies find_state(after, other) == find_state(
                before,
                other,
            ) by {
                lemma_find_state_push_other(before, new_state, other);
            }
            lemma_find_state_absent_push(before, new_state);
        }
    }

    /// Drops the state of subscription `id`, if any; every other state
    /// stays.
    pub fn remove(&mut self, id: u64)
        requires
            old(self).wf(),
        ensures
            final(self).wf(),
            find_state(final(self).states_seq(), id) is None,
            forall|other: u64|
                other != id ==> find_state(final(self).states_seq(), other) == find_state(
                    old(self).states_seq(),
                    other,
                ),
    {
        let ghost before = self.states@;
        let mut i: usize = 0;
        while i < self.states.len()
            invariant
                before == old(self).states_seq(),
                i <= self.states@.len(),
                self.states@ == before,
                unique_state_ids(before),
                forall|j: int| 0 <= j < i ==> #[trigger] before[j].subscription_id != id,
            decreases self.states@.len() - i,
        {
            if self.states[i].subscription_id == id {
                self.states.remove(i);
                proof {
                    let after = self.states@;
                    assert(after =~= before.subrange(0, i as int) + before.subrange(
                        i + 1,
                        before.len() as int,
                    ));
                    lemma_find_state_remove(before, after, i as int, id);
                }
                return;
            }
            i = i + 1;
        }
        proof {
            lemma_find_state_all_other(self.states@, id);
        }
    }
}

/// `find_state` after an in-place update at the (unique) index of `id`.
proof fn lemma_find_state_update(
    before: Seq<SubscriptionState>,
    after: Seq<SubscriptionState>,
    at: int,
    new_state: SubscriptionState,
    id: u64,
)
    requires
        unique_state_ids(before),
        0 <= at < before.len(),
        before[at].subscription_id == id,
        new_state.subscription_id == id,
        forall|j: int| 0 <= j < at ==> #[trigger] before[j].subscription_id != id,
        after == before.update(at, new_state),
    ensures
        unique_state_ids(after),
        find_state(after, id) == Some(new_state),
        forall|other: u64|
            other != id ==> find_state(after, other) == find_state(before, other),
    decreases at,
{
    if at == 0 {
        assert(after[0] == new_state);
        assert forall|other: u64| other != id implies find_state(after, other) == find_state(
            before,
            other,
        ) by {
            assert(after.skip(1) =~= before.skip(1));
            assert(find_state(after, other) == find_state(after.skip(1), other));
            assert(find_state(before, other) == find_state(before.skip(1), other));
        }
    } else {
        assert(after[0] == before[0]);
        assert(after.skip(1) =~= before.skip(1).update(at - 1, new_state));
        lemma_find_state_update(
            before.skip(1),
            after.skip(1),
            at - 1,
            new_state,
            id,
        );
        assert(find_state(after, id) == find_state(after.skip(1), id));
        assert forall|other: u64| other != id implies find_state(after, other) == find_state(
            before,
            other,
        ) by {
            if before[0].subscription_id != other {
                assert(find_state(after, other) == find_state(after.skip(1), other));
                assert(find_state(before, other) == find_state(before.skip(1), other));
            }
        }
        assert(unique_state_ids(after)) by {
            assert forall|a: int, b: int|
                0 <= a < b < after.len() implies after[a].subscription_id
                != after[b].subscription_id by {
                assert(after[a].subscription_id == before[a].subscription_id);
                assert(after[b].subscription_id == before[b].subscription_id);
            }
        }
    }
}

/// `find_state` for a different id is unmoved by a push.
proof fn lemma_find_state_push_other(
    s: Seq<SubscriptionState>,
    st: SubscriptionState,
    other: u64,
)
    requires
        other != st.subscription_id,
    ensures
        find_state(s.push(st), other) == find_state(s, other),
    decreases s.len(),
{
    if s.len() == 0 {
        assert(s.push(st)[0] == st);
        assert(s.push(st).skip(1) =~= Seq::<SubscriptionState>::empty());
        assert(find_state(s.push(st), other) == find_state(
            Seq::<SubscriptionState>::empty(),
            other,
        ));
        assert(find_state(Seq::<SubscriptionState>::empty(), other) is None);
    } else {
        assert(s.push(st)[0] == s[0]);
        lemma_find_state_push_other(s.skip(1), st, other);
        assert(s.push(st).skip(1) =~= s.skip(1).push(st));
        if s[0].subscription_id != other {
            assert(find_state(s.push(st), other) == find_state(s.push(st).skip(1), other));
            assert(find_state(s, other) == find_state(s.skip(1), other));
        }
    }
}

/// Pushing a state for an id that had none makes it findable, and keeps
/// the table one-per-subscription.
proof fn lemma_find_state_absent_push(s: Seq<SubscriptionState>, st: SubscriptionState)
    requires
        unique_state_ids(s),
        forall|j: int| 0 <= j < s.len() ==> #[trigger] s[j].subscription_id != st.subscription_id,
    ensures
        unique_state_ids(s.push(st)),
        find_state(s.push(st), st.subscription_id) == Some(st),
    decreases s.len(),
{
    if s.len() == 0 {
        assert(s.push(st)[0] == st);
    } else {
        assert(s.push(st)[0] == s[0]);
        lemma_find_state_absent_push(s.skip(1), st);
        assert(s.push(st).skip(1) =~= s.skip(1).push(st));
        assert(find_state(s.push(st), st.subscription_id) == find_state(
            s.push(st).skip(1),
            st.subscription_id,
        ));
        assert(unique_state_ids(s.push(st))) by {
            let p = s.push(st);
            assert forall|a: int, b: int|
                0 <= a < b < p.len() implies p[a].subscription_id != p[b].subscription_id by {
                if b == p.len() - 1 {
                    assert(p[a] == s[a]);
                    assert(p[b] == st);
                } else {
                    assert(p[a] == s[a]);
                    assert(p[b] == s[b]);
                }
            }
        }
    }
}

/// When no state carries `id`, `find_state` comes up empty.
proof fn lemma_find_state_all_other(s: Seq<SubscriptionState>, id: u64)
    requires
        forall|j: int| 0 <= j < s.len() ==> #[trigger] s[j].subscription_id != id,
    ensures
        find_state(s, id) is None,
    decreases s.len(),
{
    if s.len() > 0 {
        lemma_find_state_all_other(s.skip(1), id);
    }
}

/// `find_state` after removing the (unique) entry of `id`.
proof fn lemma_find_state_remove(
    before: Seq<SubscriptionState>,
    after: Seq<SubscriptionState>,
    at: int,
    id: u64,
)
    requires
        unique_state_ids(before),
        0 <= at < before.len(),
        before[at].subscription_id == id,
        forall|j: int| 0 <= j < at ==> #[trigger] before[j].subscription_id != id,
        after == before.subrange(0, at) + before.subrange(at + 1, before.len() as int),
    ensures
        unique_state_ids(after),
        find_state(after, id) is None,
        forall|other: u64|
            other != id ==> find_state(after, other) == find_state(before, other),
    decreases at,
{
    assert forall|k: int| 0 <= k < after.len() implies #[trigger] after[k] == (if k < at {
        before[k]
    } else {
        before[k + 1]
    }) by {}
    if at == 0 {
        assert(after =~= before.skip(1));
        assert forall|m: int| 0 <= m < after.len() implies #[trigger] after[m].subscription_id
            != id by {
            assert(after[m] == before[m + 1]);
        }
        lemma_find_state_all_other(after, id);
        assert forall|other: u64| other != id implies find_state(after, other) == find_state(
            before,
            other,
        ) by {
            assert(find_state(before, other) == find_state(before.skip(1), other));
        }
    } else {
        assert(after[0] == before[0]);
        assert(after.skip(1) =~= before.skip(1).subrange(0, at - 1) + before.skip(1).subrange(
            at - 1 + 1,
            before.skip(1).len() as int,
        ));
        lemma_find_state_remove(
            before.skip(1),
            after.skip(1),
            at - 1,
            id,
        );
        assert(find_state(after, id) == find_state(after.skip(1), id));
        assert forall|other: u64| other != id implies find_state(after, other) == find_state(
            before,
            other,
        ) by {
            if before[0].subscription_id != other {
                assert(find_state(after, other) == find_state(after.skip(1), other));
                assert(find_state(before, other) == find_state(before.skip(1), other));
            }
        }
        assert(unique_state_ids(after)) by {
            assert forall|a: int, b: int|
                0 <= a < b < after.len() implies after[a].subscription_id
                != after[b].subscription_id by {
                let fa: int = if a < at { a } else { a + 1 };
                let fb: int = if b < at { b } else { b + 1 };
                assert(after[a] == before[fa]);
                assert(after[b] == before[fb]);
            }
        }
    }
}

} // verus!
