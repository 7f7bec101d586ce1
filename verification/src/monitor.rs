//! The per-tick scrape-cycle planner: given the watermark a subscription
//! last advanced to and the listings just parsed from its page, decide
//! which listings to deliver and where the watermark moves.
//!
//! The rules, which any delivery loop around this planner inherits:
//! - On a subscription's first observed page (no watermark yet) nothing is
//!   delivered; the watermark jumps to the newest listing seen, so that the
//!   pre-existing page is not replayed.
//! - With a watermark in place, exactly the listings strictly newer than it
//!   are delivered, oldest first.
//! - The watermark never moves backwards.

use vstd::prelude::*;

use vstd::multiset::Multiset;

use crate::models::{Listing, ListingId};

verus! {

/// The newest (greatest) listing id on the page; the identity when the
/// page is empty.
pub open spec fn page_max_id(s: Seq<Listing>) -> int
    decreases s.len(),
{
    if s.len() == 0 {
        i64::MIN as int
    } else {
        let rest = page_max_id(s.drop_last());
        if s.last().id > rest {
            s.last().id as int
        } else {
            rest
        }
    }
}

/// Every listing id of `s` is at most `page_max_id(s)`, and the maximum is
/// attained on a non-empty page.
pub proof fn lemma_page_max_id(s: Seq<Listing>)
    ensures
        forall|k: int| 0 <= k < s.len() ==> #[trigger] s[k].id <= page_max_id(s),
        s.len() > 0 ==> exists|k: int| 0 <= k < s.len() && #[trigger] s[k].id == page_max_id(s),
        i64::MIN <= page_max_id(s) <= i64::MAX,
    decreases s.len(),
{
    if s.len() > 0 {
        lemma_page_max_id(s.drop_last());
        assert forall|k: int| 0 <= k < s.len() implies #[trigger] s[k].id <= page_max_id(s) by {
            if k < s.len() - 1 {
                assert(s.drop_last()[k] == s[k]);
            }
        }
        if s.last().id > page_max_id(s.drop_last()) {
            assert(s[s.len() - 1].id == page_max_id(s));
        } else {
            if s.len() > 1 {
                let k = choose|k: int|
                    0 <= k < s.drop_last().len() && #[trigger] s.drop_last()[k].id == page_max_id(
                        s.drop_last(),
                    );
                assert(s[k].id == page_max_id(s));
            }
        }
    }
}

/// Ascending by listing id.
pub open spec fn sorted_by_id(s: Seq<Listing>) -> bool {
    forall|i: int, j: int| 0 <= i < j < s.len() ==> s[i].id <= s[j].id
}

/// What one scrape cycle decided: the listings to deliver, in order, and
/// the watermark to record afterwards.
pub struct CyclePlan {
    pub to_notify: Vec<Listing>,
    pub new_last_seen: Option<ListingId>,
}

impl CyclePlan {
    /// The plan `plan_cycle(last_seen, page)` must produce.
    pub open spec fn spec_valid(&self, last_seen: Option<ListingId>, page: Seq<Listing>) -> bool {
        match last_seen {
            None => {
                // First run: deliver nothing, start the watermark at the
                // newest listing seen, if any.
                &&& self.to_notify@.len() == 0
                &&& self.new_last_seen == (if page.len() == 0 {
                    None::<ListingId>
                } else {
                    Some(page_max_id(page) as ListingId)
                })
            },
            Some(mark) => {
                // Deliver exactly the listings newer than the watermark,
                // oldest first; move the watermark to the newest of the old
                // mark and the page.
                &&& self.to_notify@.to_multiset() == page.filter(
                    |l: Listing| l.id > mark,
                ).to_multiset()
                &&& sorted_by_id(self.to_notify@)
                &&& forall|k: int|
                    0 <= k < self.to_notify@.len() ==> #[trigger] self.to_notify@[k].id > mark
                &&& self.new_last_seen == Some(
                    (if page_max_id(page) > mark {
                        page_max_id(page)
                    } else {
                        mark as int
                    }) as ListingId,
                )
            },
        }
    }
}

/// Watermark monotonicity: a plan made against a recorded watermark never
/// moves it backwards (and never drops it), so the successive values a
/// subscription records are non-decreasing.
pub proof fn lemma_watermark_monotone(
    plan: CyclePlan,
    last_seen: Option<ListingId>,
    page: Seq<Listing>,
)
    requires
        plan.spec_valid(last_seen, page),
    ensures
        match (last_seen, plan.new_last_seen) {
            (Some(mark), Some(new_mark)) => new_mark >= mark,
            (Some(mark), None) => false,
            (None, _) => true,
        },
{
    lemma_page_max_id(page);
}

/// No retro-notification: on a first run (no recorded watermark) nothing
/// is delivered, and otherwise every delivered listing's id strictly
/// exceeds the watermark recorded when the cycle started.
pub proof fn lemma_no_retro_notification(
    plan: CyclePlan,
    last_seen: Option<ListingId>,
    page: Seq<Listing>,
)
    requires
        plan.spec_valid(last_seen, page),
    ensures
        last_seen is None ==> plan.to_notify@.len() == 0,
        forall|k: int|
            0 <= k < plan.to_notify@.len() ==> last_seen is Some
                && #[trigger] plan.to_notify@[k].id > last_seen->0,
{
}

/// The greatest id on the page, or `None` for an empty page.
fn max_id_of(page: &Vec<Listing>) -> (r: Option<ListingId>)
    ensures
        match r {
            None => page@.len() == 0,
            Some(m) => page@.len() > 0 && m == page_max_id(page@),
        },
{
    let mut r: Option<ListingId> = None;
    let mut i: usize = 0;
    proof {
        assert(page@.take(0) =~= Seq::<Listing>::empty());
    }
    while i < page.len()
        invariant
            i <= page@.len(),
            match r {
                None => i == 0,
                Some(m) => i > 0 && m == page_max_id(page@.take(i as int)),
            },
        decreases page@.len() - i,
    {
        let id = page[i].id;
        let next = match r {
            None => id,
            Some(m) => {
                if id > m {
                    id
                } else {
                    m
                }
            },
        };
        r = Some(next);
        i = i + 1;
        proof {
            assert(page@.take(i as int).drop_last() =~= page@.take(i - 1));
            assert(page@.take(i as int).last() == page@[i - 1]);
            if i == 1 {
                lemma_page_max_id(page@.take(0));
            } else {
                lemma_page_max_id(page@.take(i - 1));
            }
        }
    }
    proof {
        assert(page@.take(page@.len() as int) =~= page@);
    }
    r
}

/// Plans one scrape cycle. `page` is what the parser produced for this
/// tick; `last_seen` is the watermark recorded for the subscription, or
/// `None` when this subscription has never observed a listing. The new
/// watermark never lies below the old one, and a listing is planned for
/// delivery only when its id strictly exceeds the old watermark.
pub fn plan_cycle(last_seen: Option<ListingId>, page: Vec<Listing>) -> (plan: CyclePlan)
    ensures
        plan.spec_valid(last_seen, page@),
        match (last_seen, plan.new_last_seen) {
            (Some(mark), Some(new_mark)) => new_mark >= mark,
            (Some(mark), None) => false,
            (None, _) => true,
        },
{
    let ghost orig = page@;
    let max_seen = max_id_of(&page);
    let mark = match last_seen {
        None => {
            let plan = CyclePlan { to_notify: Vec::new(), new_last_seen: max_seen };
            return plan;
        },
        Some(mark) => mark,
    };
    // Keep exactly the listings newer than the watermark, in page order.
    let mut work = page;
    let mut kept: Vec<Listing> = Vec::new();
    let ghost mut i: int = 0;
    proof {
        assert(work@ =~= orig.skip(0));
        reveal_with_fuel(Seq::filter, 2);
        assert(kept@ =~= orig.take(0).filter(|l: Listing| l.id > mark));
    }
    while work.len() > 0
        invariant
            0 <= i,
            i + work@.len() == orig.len(),
            work@ == orig.skip(i),
            kept@ == orig.take(i).filter(|l: Listing| l.id > mark),
        decreases work@.len(),
    {
        let item = work.remove(0);
        proof {
            assert(item == orig[i]);
            assert(work@ =~= orig.skip(i + 1));
        }
        if item.id > mark {
            kept.push(item);
        }
        proof {
            i = i + 1;
            assert(orig.take(i).drop_last() =~= orig.take(i - 1));
            assert(orig.take(i).last() == orig[i - 1]);
            reveal_with_fuel(Seq::filter, 2);
            assert(kept@ =~= orig.take(i).filter(|l: Listing| l.id > mark));
        }
    }
    proof {
        assert(orig.take(orig.len() as int) =~= orig);
    }
    // Sort ascending by id: repeatedly move the least remaining id over.
    let mut rest = kept;
    let mut sorted: Vec<Listing> = Vec::new();
    proof {
        broadcast use vstd::seq_lib::group_to_multiset_ensures;

        assert(sorted@.to_multiset().add(rest@.to_multiset()) =~= rest@.to_multiset());
    }
    while rest.len() > 0
        invariant
            sorted@.to_multiset().add(rest@.to_multiset()) == orig.filter(
                |l: Listing| l.id > mark,
            ).to_multiset(),
            sorted_by_id(sorted@),
            forall|a: int, b: int|
                0 <= a < sorted@.len() && 0 <= b < rest@.len() ==> #[trigger] sorted@[a].id
                    <= #[trigger] rest@[b].id,
            forall|k: int| 0 <= k < sorted@.len() ==> #[trigger] sorted@[k].id > mark,
            forall|k: int| 0 <= k < rest@.len() ==> #[trigger] rest@[k].id > mark,
        decreases rest@.len(),
    {
        // Index of a least id among the rest.
        let mut least: usize = 0;
        let mut j: usize = 1;
        while j < rest.len()
            invariant
                least < j <= rest@.len(),
                rest@.len() > 0,
                forall|k: int| 0 <= k < j ==> rest@[least as int].id <= #[trigger] rest@[k].id,
            decreases rest@.len() - j,
        {
            if rest[j].id < rest[least].id {
                least = j;
            }
            j = j + 1;
        }
        let ghost rest_before = rest@;
        let ghost sorted_before = sorted@;
        let item = rest.remove(least);
        sorted.push(item);
        proof {
            broadcast use vstd::seq_lib::group_to_multiset_ensures;

            assert(rest@.to_multiset() =~= rest_before.to_multiset().remove(item));
            assert(sorted@.to_multiset() =~= sorted_before.to_multiset().insert(item));
            assert(sorted@.to_multiset().add(rest@.to_multiset()) =~= sorted_before.to_multiset().add(
                rest_before.to_multiset(),
            ));
            assert forall|a: int, b: int|
                0 <= a < sorted@.len() && 0 <= b < rest@.len() implies #[trigger] sorted@[a].id
                <= #[trigger] rest@[b].id by {
                if a < sorted@.len() - 1 {
                    assert(sorted@[a] == sorted_before[a]);
                }
                if b < least {
                    assert(rest@[b] == rest_before[b]);
                } else {
                    assert(rest@[b] == rest_before[b + 1]);
                }
            }
            assert forall|a: int, b: int|
                0 <= a < b < sorted@.len() implies sorted@[a].id <= sorted@[b].id by {
                if b < sorted@.len() - 1 {
                    assert(sorted@[a] == sorted_before[a] && sorted@[b] == sorted_before[b]);
                }
            }
            assert forall|k: int| 0 <= k < rest@.len() implies #[trigger] rest@[k].id > mark by {
                if k < least {
                    assert(rest@[k] == rest_before[k]);
                } else {
                    assert(rest@[k] == rest_before[k + 1]);
                }
            }
        }
    }
    proof {
        assert(rest@.to_multiset() =~= Multiset::<Listing>::empty());
        assert(sorted@.to_multiset().add(rest@.to_multiset()) =~= sorted@.to_multiset());
    }
    let new_mark = match max_seen {
        None => mark,
        Some(m) => {
            if m > mark {
                m
            } else {
                mark
            }
        },
    };
    CyclePlan { to_notify: sorted, new_last_seen: Some(new_mark) }
}

} // verus!
