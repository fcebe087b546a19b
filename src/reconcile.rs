use vstd::prelude::*;

use crate::feed::{Config, Podcast, Subscription, SubscriptionView};
use crate::resolve::{limited, limited_count};

verus! {

/// The episodes of a feed that a subscription does not know yet: the feed now
/// has `total` episodes and the subscription knew of `stored`.
pub open spec fn new_count(stored: usize, total: usize) -> nat {
    if stored < total {
        (total - stored) as nat
    } else {
        0
    }
}

/// What refreshing one subscription calls for.
pub struct RefreshPlan {
    /// Positions in the feed, newest first, of the episodes to download.
    pub positions: Vec<usize>,
    /// How many episodes the feed has now; it becomes the subscription's count.
    pub total: usize,
}

/// Plans the refresh of `sub` against its feed as fetched now: the newest of
/// the episodes it did not know, as many as the subscription download limit
/// allows, and the feed's whole episode count.
pub fn update_subscription(sub: &Subscription, podcast: &Podcast, config: &Config) -> (r:
    RefreshPlan)
    ensures
        r.total == podcast.episodes@.len(),
        r.positions@ == Seq::new(
            limited(
                config.download_subscription_limit,
                new_count(sub.num_episodes, podcast.episodes@.len() as usize),
            ),
            |i: int| i as usize,
        ),
{
    let total = podcast.episodes.len();
    let fresh: usize = if sub.num_episodes < total {
        total - sub.num_episodes
    } else {
        0
    };
    let n = limited_count(config.download_subscription_limit, fresh);
    let mut positions: Vec<usize> = Vec::new();
    let mut i: usize = 0;
    while i < n
        invariant
            i <= n,
            positions@ == Seq::new(i as nat, |j: int| j as usize),
        decreases n - i,
    {
        positions.push(i);
        i = i + 1;
        assert(positions@ =~= Seq::new(i as nat, |j: int| j as usize));
    }
    RefreshPlan { positions, total }
}

/// The episode count that the outcomes of the refresh tasks give subscription
/// `i`: that of the last task for it that succeeded, if any did.
pub open spec fn outcome_for(outcomes: Seq<Result<(usize, usize), String>>, i: int) -> Option<
    usize,
>
    decreases outcomes.len(),
{
    if outcomes.len() == 0 {
        None
    } else {
        match outcomes.last() {
            Ok((j, n)) if j == i => Some(n),
            _ => outcome_for(outcomes.drop_last(), i),
        }
    }
}

/// The subscriptions once the outcomes are merged in: each one whose refresh
/// succeeded takes the feed's episode count, every other one stays as it was.
pub open spec fn reconciled(
    subs: Seq<SubscriptionView>,
    outcomes: Seq<Result<(usize, usize), String>>,
) -> Seq<SubscriptionView> {
    Seq::new(
        subs.len(),
        |i: int|
            match outcome_for(outcomes, i) {
                Some(n) => SubscriptionView { num_episodes: n, ..subs[i] },
                None => subs[i],
            },
    )
}

/// Merges the outcomes of the refresh tasks into the subscriptions: for each
/// `Ok((index, total))` the subscription at `index` takes `total` as its
/// episode count; failed tasks change nothing.
pub fn merge_outcomes(subs: &mut Vec<Subscription>, outcomes: &Vec<Result<(usize, usize), String>>)
    ensures
        final(subs)@.map_values(|s: Subscription| s@) == reconciled(
            old(subs)@.map_values(|s: Subscription| s@),
            outcomes@,
        ),
{
    let ghost start = subs@.map_values(|s: Subscription| s@);
    let mut k: usize = 0;
    while k < outcomes.len()
        invariant
            k <= outcomes@.len(),
            start.len() == subs@.len(),
            subs@.map_values(|s: Subscription| s@) == reconciled(start, outcomes@.take(k as int)),
        decreases outcomes@.len() - k,
    {
        let ghost before = subs@.map_values(|s: Subscription| s@);
        match &outcomes[k] {
            Ok((j, n)) => {
                if *j >= subs.len() {
                    assert(subs@.map_values(|s: Subscription| s@) == before);
                }
                if *j < subs.len() {
                    let title = subs[*j].title.clone();
                    let url = subs[*j].url.clone();
                    subs.set(*j, Subscription { title, url, num_episodes: *n });
                    assert(subs@.map_values(|s: Subscription| s@) =~= before.update(
                        *j as int,
                        SubscriptionView { num_episodes: *n, ..before[*j as int] },
                    ));
                }
            },
            Err(_) => {
                assert(subs@.map_values(|s: Subscription| s@) == before);
            },
        }
        proof {
            let t = outcomes@.take(k + 1);
            assert(t.drop_last() =~= outcomes@.take(k as int));
            assert(t.last() == outcomes@[k as int]);
            let now = subs@.map_values(|s: Subscription| s@);
            let want = reconciled(start, t);
            assert forall|i: int| 0 <= i < start.len() implies now[i] == want[i] by {
                assert(before[i] == reconciled(start, t.drop_last())[i]);
                assert(outcome_for(t, i) == match t.last() {
                    Ok((j, n)) => if j == i {
                        Some(n)
                    } else {
                        outcome_for(t.drop_last(), i)
                    },
                    _ => outcome_for(t.drop_last(), i),
                });
            }
            assert(now =~= want);
        }
        k = k + 1;
    }
    assert(outcomes@.take(outcomes@.len() as int) =~= outcomes@);
}

/// No subscription has two successful outcomes with different episode counts.
pub open spec fn consistent_outcomes(outcomes: Seq<Result<(usize, usize), String>>) -> bool {
    forall|j: usize, a: usize, b: usize|
        #[trigger] outcomes.contains(Ok((j, a))) && #[trigger] outcomes.contains(Ok((j, b))) ==> a
            == b
}

/// The count that the outcomes give a subscription comes from one of them, and
/// where they give none, no outcome for it succeeded.
proof fn lemma_outcome_for_source(outcomes: Seq<Result<(usize, usize), String>>, i: int)
    ensures
        outcome_for(outcomes, i) is Some ==> 0 <= i <= usize::MAX && outcomes.contains(
            Ok((i as usize, outcome_for(outcomes, i)->0)),
        ),
        outcome_for(outcomes, i) is None ==> forall|j: usize, n: usize|
            j == i ==> !#[trigger] outcomes.contains(Ok((j, n))),
    decreases outcomes.len(),
{
    if outcomes.len() > 0 {
        let rest = outcomes.drop_last();
        lemma_outcome_for_source(rest, i);
        let last = outcomes.len() - 1;
        assert(outcomes[last] == outcomes.last());
        if outcome_for(outcomes, i) is Some {
            if outcome_for(outcomes, i) != outcome_for(rest, i) {
                assert(outcomes.contains(outcomes[last]));
            } else {
                let m = outcome_for(rest, i)->0;
                let x = choose|x: int| 0 <= x < rest.len() && rest[x] == Ok::<
                    (usize, usize),
                    String,
                >((i as usize, m));
                assert(outcomes[x] == rest[x]);
            }
        } else {
            assert forall|j: usize, n: usize| j == i implies !#[trigger] outcomes.contains(
                Ok((j, n)),
            ) by {
                if outcomes.contains(Ok((j, n))) {
                    let x = choose|x: int| 0 <= x < outcomes.len() && outcomes[x] == Ok::<
                        (usize, usize),
                        String,
                    >((j, n));
                    if x < last {
                        assert(rest[x] == outcomes[x]);
                        assert(rest.contains(Ok((j, n))));
                    }
                }
            }
        }
    }
}

/// The order in which the refresh tasks finish does not matter: where no
/// subscription has two successful outcomes that disagree, any two orders of
/// the same outcomes give the same subscriptions.
pub proof fn lemma_reconcile_order_independent(
    subs: Seq<SubscriptionView>,
    first: Seq<Result<(usize, usize), String>>,
    second: Seq<Result<(usize, usize), String>>,
)
    requires
        first.to_multiset() == second.to_multiset(),
        consistent_outcomes(first),
    ensures
        reconciled(subs, first) == reconciled(subs, second),
{
    assert forall|x: Result<(usize, usize), String>| first.contains(x) <==> second.contains(x) by {
        vstd::seq_lib::to_multiset_contains(first, x);
        vstd::seq_lib::to_multiset_contains(second, x);
    }
    assert forall|i: int| 0 <= i < subs.len() implies outcome_for(first, i) == outcome_for(
        second,
        i,
    ) by {
        lemma_outcome_for_source(first, i);
        lemma_outcome_for_source(second, i);
        if outcome_for(first, i) is Some {
            let n = outcome_for(first, i)->0;
            assert(second.contains(Ok((i as usize, n))));
            let m = outcome_for(second, i)->0;
            assert(first.contains(Ok((i as usize, m))));
        } else if outcome_for(second, i) is Some {
            let m = outcome_for(second, i)->0;
            assert(first.contains(Ok((i as usize, m))));
        }
    }
    assert(reconciled(subs, first) =~= reconciled(subs, second));
}

} // verus!
