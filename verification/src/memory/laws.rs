//! Properties of the memory store that span its operations.

use vstd::prelude::*;
use crate::ids::AlynxisId;
use crate::memory::episode::{EpisodeView, MemoryTier};
use crate::memory::procedural::PatternView;
use crate::memory::storage::{
    most_recent_for, sorted_by_time, tier_set, inserted_in_time_order, has_episode, episode_with_id,
    episode_ids_unique, has_pattern, pattern_with_id, pattern_ids_unique,
};
use crate::memory::memory_store::linked_ids;

verus! {

/// The recent-episodes query is tier-agnostic and ordered: over episodes
/// kept in time order, what it returns belongs to the experiencer, comes
/// from the store, runs from most to least recent, holds at most `limit`
/// episodes, and, when it holds fewer than `limit`, holds every episode of
/// the experiencer.
pub proof fn law_recent_episodes_are_most_recent_first(s: Seq<EpisodeView>, x: AlynxisId, limit: nat)
    requires
        sorted_by_time(s),
    ensures
        most_recent_for(s, x, limit).len() <= limit,
        forall|i: int| 0 <= i < most_recent_for(s, x, limit).len() ==> (#[trigger] most_recent_for(s, x, limit)[i]).experiencer == x
            && s.contains(most_recent_for(s, x, limit)[i]),
        forall|i: int, j: int| 0 <= i <= j < most_recent_for(s, x, limit).len() ==>
            (#[trigger] most_recent_for(s, x, limit)[i]).timestamp_ms >= (#[trigger] most_recent_for(s, x, limit)[j]).timestamp_ms,
        most_recent_for(s, x, limit).len() < limit ==> forall|k: int| 0 <= k < s.len() && (#[trigger] s[k]).experiencer == x
            ==> most_recent_for(s, x, limit).contains(s[k]),
    decreases s.len(),
{
    if s.len() == 0 || limit == 0 {
    } else {
        let d = s.drop_last();
        assert(sorted_by_time(d)) by {
            assert forall|i: int, j: int| 0 <= i <= j < d.len() implies d[i].timestamp_ms <= d[j].timestamp_ms by {
                assert(d[i] == s[i] && d[j] == s[j]);
            }
        }
        let l = s.last();
        assert(l == s[s.len() - 1]);
        if l.experiencer == x {
            let lim = (limit - 1) as nat;
            law_recent_episodes_are_most_recent_first(d, x, lim);
            let rest = most_recent_for(d, x, lim);
            let r = most_recent_for(s, x, limit);
            assert(r == seq![l] + rest);
            assert forall|i: int| 0 <= i < r.len() implies (#[trigger] r[i]).experiencer == x && s.contains(r[i]) by {
                if i > 0 {
                    assert(r[i] == rest[i - 1]);
                    let k = choose|k: int| 0 <= k < d.len() && d[k] == rest[i - 1];
                    assert(s[k] == d[k]);
                } else {
                    assert(s[s.len() - 1] == l);
                }
            }
            assert forall|i: int, j: int| 0 <= i <= j < r.len() implies
                (#[trigger] r[i]).timestamp_ms >= (#[trigger] r[j]).timestamp_ms by {
                if i == 0 && j > 0 {
                    assert(r[j] == rest[j - 1]);
                    let k = choose|k: int| 0 <= k < d.len() && d[k] == rest[j - 1];
                    assert(s[k] == d[k]);
                } else if i > 0 {
                    assert(r[i] == rest[i - 1] && r[j] == rest[j - 1]);
                }
            }
            if r.len() < limit {
                assert forall|k: int| 0 <= k < s.len() && (#[trigger] s[k]).experiencer == x implies r.contains(s[k]) by {
                    if k < s.len() - 1 {
                        assert(s[k] == d[k]);
                        let i = choose|i: int| 0 <= i < rest.len() && rest[i] == d[k];
                        assert(r[i + 1] == rest[i]);
                    } else {
                        assert(r[0] == s[k]);
                    }
                }
            }
        } else {
            law_recent_episodes_are_most_recent_first(d, x, limit);
            let r = most_recent_for(s, x, limit);
            assert(r == most_recent_for(d, x, limit));
            assert forall|i: int| 0 <= i < r.len() implies (#[trigger] r[i]).experiencer == x && s.contains(r[i]) by {
                let k = choose|k: int| 0 <= k < d.len() && d[k] == r[i];
                assert(s[k] == d[k]);
            }
            if r.len() < limit {
                assert forall|k: int| 0 <= k < s.len() && (#[trigger] s[k]).experiencer == x implies r.contains(s[k]) by {
                    assert(k < s.len() - 1);
                    assert(s[k] == d[k]);
                }
            }
        }
    }
}

/// Demoting an episode and then promoting it leaves it as it was, apart
/// from its last-touched time; every other episode is untouched.
pub proof fn law_demote_then_promote_round_trips(
    s0: Seq<EpisodeView>,
    s1: Seq<EpisodeView>,
    s2: Seq<EpisodeView>,
    id: AlynxisId,
)
    requires
        tier_set(s0, s1, id, MemoryTier::Cold),
        tier_set(s1, s2, id, MemoryTier::Episodic),
    ensures
        s2.len() == s0.len(),
        forall|k: int| 0 <= k < s0.len() ==> #[trigger] s2[k] == (
            if s0[k].id == id && s0[k].tier == MemoryTier::Episodic {
                EpisodeView { last_touched_unix: s2[k].last_touched_unix, ..s0[k] }
            } else if s0[k].id == id {
                EpisodeView { tier: MemoryTier::Episodic, last_touched_unix: s2[k].last_touched_unix, ..s0[k] }
            } else {
                s0[k]
            }),
{
    assert forall|k: int| 0 <= k < s0.len() implies #[trigger] s2[k] == (
        if s0[k].id == id && s0[k].tier == MemoryTier::Episodic {
            EpisodeView { last_touched_unix: s2[k].last_touched_unix, ..s0[k] }
        } else if s0[k].id == id {
            EpisodeView { tier: MemoryTier::Episodic, last_touched_unix: s2[k].last_touched_unix, ..s0[k] }
        } else {
            s0[k]
        }) by {
        assert(s1[k].id == s0[k].id);
    }
}

/// Demoting twice leaves the episode cold, as demoting once does.
pub proof fn law_demote_is_idempotent(s0: Seq<EpisodeView>, s1: Seq<EpisodeView>, s2: Seq<EpisodeView>, id: AlynxisId)
    requires
        tier_set(s0, s1, id, MemoryTier::Cold),
        tier_set(s1, s2, id, MemoryTier::Cold),
    ensures
        tier_set(s0, s2, id, MemoryTier::Cold),
{
    assert forall|k: int| 0 <= k < s0.len() implies #[trigger] s2[k] == (
        if s0[k].id == id {
            EpisodeView { tier: MemoryTier::Cold, last_touched_unix: s2[k].last_touched_unix, ..s0[k] }
        } else {
            s0[k]
        }) by {
        assert(s1[k].id == s0[k].id);
    }
}

/// An episode stored in time order is found again by its id, unchanged.
pub proof fn law_inserted_episode_is_found(s0: Seq<EpisodeView>, e: EpisodeView, s1: Seq<EpisodeView>)
    requires
        !has_episode(s0, e.id),
        inserted_in_time_order(s0, e, s1),
        episode_ids_unique(s1),
    ensures
        episode_with_id(s1, e.id) == Some(e),
{
    let p = choose|p: int| {
        &&& 0 <= p <= s0.len()
        &&& (forall|k: int| 0 <= k < p ==> s0[k].timestamp_ms <= e.timestamp_ms)
        &&& (forall|k: int| p <= k < s0.len() ==> s0[k].timestamp_ms > e.timestamp_ms)
        &&& s1 == s0.insert(p, e)
    };
    assert(s1[p] == e);
    assert(has_episode(s1, e.id));
    let c = choose|i: int| 0 <= i < s1.len() && s1[i].id == e.id;
    assert(c == p);
}

/// A pattern appended to the table is found again by its id, unchanged.
pub proof fn law_inserted_pattern_is_found(s0: Seq<PatternView>, p: PatternView)
    requires
        !has_pattern(s0, p.id),
        pattern_ids_unique(s0.push(p)),
    ensures
        pattern_with_id(s0.push(p), p.id) == Some(p),
{
    let s1 = s0.push(p);
    assert(s1[s0.len() as int] == p);
    assert(has_pattern(s1, p.id));
    let c = choose|i: int| 0 <= i < s1.len() && s1[i].id == p.id;
    assert(c == s0.len());
}

/// Linking an episode to a pattern twice is the same as linking it once:
/// the episode is then among the sources, and a source list without
/// repeats stays without repeats.
pub proof fn law_link_is_idempotent(ids: Seq<AlynxisId>, e: AlynxisId)
    ensures
        linked_ids(linked_ids(ids, e), e) == linked_ids(ids, e),
        linked_ids(ids, e).contains(e),
        ids.no_duplicates() ==> linked_ids(ids, e).no_duplicates(),
{
    if !ids.contains(e) {
        assert(ids.push(e)[ids.len() as int] == e);
        if ids.no_duplicates() {
            assert forall|i: int, j: int| 0 <= i < ids.push(e).len() && 0 <= j < ids.push(e).len() && i != j
                implies ids.push(e)[i] != ids.push(e)[j] by {
                if i < ids.len() && j < ids.len() {
                } else if i < ids.len() {
                    assert(ids.push(e)[i] == ids[i]);
                } else {
                    assert(ids.push(e)[j] == ids[j]);
                }
            }
        }
    }
}

} // verus!
