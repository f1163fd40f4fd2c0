//! The unified memory facade: one interface over the episodic, cold and
//! procedural stores, so callers need not know which tier holds a memory.

use vstd::prelude::*;
use crate::ids::{AlynxisId, uuid_text};
use crate::memory::episode::{Episode, MemoryTier};
use crate::memory::error::MemoryError;
use crate::memory::procedural::{ProceduralPattern, PatternView};
use crate::memory::storage::{Storage, StorageView, has_episode, has_pattern, episode_with_id, pattern_with_id, opt_episode_view, opt_pattern_view, episode_views, most_recent_for, in_tier, inserted_in_time_order, tier_set, pattern_ids_unique};
use crate::memory::tiers;

verus! {

/// `ids` with `e` appended unless it already occurs.
pub open spec fn linked_ids(ids: Seq<AlynxisId>, e: AlynxisId) -> Seq<AlynxisId> {
    if ids.contains(e) { ids } else { ids.push(e) }
}

/// `new` is `old` with the pattern whose id is `id` replaced by `f` applied
/// to it, except that its last-touched time is some new value; every other
/// pattern unchanged.
pub open spec fn pattern_changed(
    old: Seq<PatternView>,
    new: Seq<PatternView>,
    id: AlynxisId,
    f: spec_fn(PatternView) -> PatternView,
) -> bool {
    &&& new.len() == old.len()
    &&& forall|k: int| 0 <= k < old.len() ==> #[trigger] new[k] == (
        if old[k].id == id {
            PatternView { last_touched_unix: new[k].last_touched_unix, ..f(old[k]) }
        } else {
            old[k]
        })
}

/// The memory facade.
pub struct MemoryStore {
    storage: Storage,
}

impl View for MemoryStore {
    type V = StorageView;

    closed spec fn view(&self) -> StorageView {
        self.storage@
    }
}

fn ids_contain(ids: &Vec<AlynxisId>, e: AlynxisId) -> (r: bool)
    ensures
        r == ids@.contains(e),
{
    let mut i: usize = 0;
    while i < ids.len()
        invariant
            i <= ids.len(),
            forall|k: int| 0 <= k < i ==> ids@[k] != e,
        decreases ids.len() - i,
    {
        if ids[i] == e {
            assert(ids@[i as int] == e);
            return true;
        }
        i = i + 1;
    }
    false
}

impl MemoryStore {
    /// Well-formedness of the tables (see `StorageView::wf`).
    pub open spec fn wf(&self) -> bool {
        self@.wf()
    }

    /// An empty store. Never fails.
    pub fn open_in_memory() -> (r: Result<MemoryStore, MemoryError>)
        ensures
            r matches Ok(m) && m.wf() && m@.episodes.len() == 0 && m@.patterns.len() == 0,
    {
        match Storage::open_in_memory() {
            Ok(storage) => Ok(MemoryStore { storage }),
            Err(e) => Err(e),
        }
    }

    /// The facade over existing tables.
    pub fn with_storage(storage: Storage) -> (r: MemoryStore)
        ensures
            r@ == storage@,
    {
        MemoryStore { storage }
    }

    /// Records a new episode in the episodic tier (fresh random id, current
    /// timestamp) and returns it. Fails, changing nothing, only if the
    /// random id is already taken.
    pub fn record_episode(
        &mut self,
        experiencer: AlynxisId,
        node_refs: Vec<AlynxisId>,
        edge_refs: Vec<AlynxisId>,
    ) -> (r: Result<Episode, MemoryError>)
        requires
            old(self).wf(),
        ensures
            final(self).wf(),
            final(self)@.patterns == old(self)@.patterns,
            r matches Ok(e) ==> {
                &&& e.experiencer == experiencer
                &&& e.node_refs@ == node_refs@
                &&& e.edge_refs@ == edge_refs@
                &&& e.tier == MemoryTier::Episodic
                &&& !has_episode(old(self)@.episodes, e.id)
                &&& inserted_in_time_order(old(self)@.episodes, e@, final(self)@.episodes)
            },
            r matches Err(e) ==> e is Constraint && final(self)@ == old(self)@,
    {
        let episode = Episode::new(experiencer, node_refs, edge_refs);
        match self.storage.insert_episode(&episode) {
            Ok(()) => Ok(episode),
            Err(e) => Err(e),
        }
    }

    /// The episode with this id, whatever its tier. Never fails.
    pub fn get_episode(&self, id: AlynxisId) -> (r: Result<Option<Episode>, MemoryError>)
        requires
            self.wf(),
        ensures
            r matches Ok(o) && opt_episode_view(o) == episode_with_id(self@.episodes, id),
    {
        self.storage.get_episode(id)
    }

    /// The most recent episodes of `experiencer`, most recent first, from
    /// the episodic and the cold tier alike, at most `limit`. Never fails.
    pub fn recent_episodes(&self, experiencer: AlynxisId, limit: u32) -> (r: Result<Vec<Episode>, MemoryError>)
        requires
            self.wf(),
        ensures
            r matches Ok(v) && episode_views(v@) == most_recent_for(self@.episodes, experiencer, limit as nat),
    {
        self.storage.episodes_for_experiencer(experiencer, limit)
    }

    /// The episodes in one tier, oldest first. Never fails.
    pub fn episodes_in_tier(&self, tier: MemoryTier) -> (r: Result<Vec<Episode>, MemoryError>)
        requires
            self.wf(),
        ensures
            r matches Ok(v) && episode_views(v@) == in_tier(self@.episodes, tier),
    {
        self.storage.episodes_in_tier(tier)
    }

    /// Moves an episode to the cold tier; `EpisodeNotFound` when absent.
    pub fn demote_to_cold(&mut self, episode_id: AlynxisId) -> (r: Result<(), MemoryError>)
        requires
            old(self).wf(),
        ensures
            final(self).wf(),
            final(self)@.patterns == old(self)@.patterns,
            r is Ok <==> has_episode(old(self)@.episodes, episode_id),
            r matches Err(e) ==> e matches MemoryError::EpisodeNotFound(s) && s@ == uuid_text(episode_id.0)
                && final(self)@ == old(self)@,
            r is Ok ==> tier_set(old(self)@.episodes, final(self)@.episodes, episode_id, MemoryTier::Cold),
    {
        tiers::demote_to_cold(&mut self.storage, episode_id)
    }

    /// Moves an episode back to the episodic tier; `EpisodeNotFound` when
    /// absent.
    pub fn promote_from_cold(&mut self, episode_id: AlynxisId) -> (r: Result<(), MemoryError>)
        requires
            old(self).wf(),
        ensures
            final(self).wf(),
            final(self)@.patterns == old(self)@.patterns,
            r is Ok <==> has_episode(old(self)@.episodes, episode_id),
            r matches Err(e) ==> e matches MemoryError::EpisodeNotFound(s) && s@ == uuid_text(episode_id.0)
                && final(self)@ == old(self)@,
            r is Ok ==> tier_set(old(self)@.episodes, final(self)@.episodes, episode_id, MemoryTier::Episodic),
    {
        tiers::promote_from_cold(&mut self.storage, episode_id)
    }

    /// How many episodes are stored, all tiers together. Never fails.
    pub fn episode_count(&self) -> (r: Result<u64, MemoryError>)
        ensures
            r matches Ok(n) && n == self@.episodes.len(),
    {
        self.storage.episode_count()
    }

    /// Creates and stores a new, empty procedural pattern and returns it.
    /// Fails, changing nothing, only if the random id is already taken.
    pub fn create_procedural_pattern(&mut self) -> (r: Result<ProceduralPattern, MemoryError>)
        requires
            old(self).wf(),
        ensures
            final(self).wf(),
            final(self)@.episodes == old(self)@.episodes,
            r matches Ok(p) ==> {
                &&& p.schema_node_id is None
                &&& p.source_episode_ids@.len() == 0
                &&& p.created_at_unix == p.last_touched_unix
                &&& !has_pattern(old(self)@.patterns, p.id)
                &&& final(self)@.patterns == old(self)@.patterns.push(p@)
            },
            r matches Err(e) ==> e is Constraint && final(self)@ == old(self)@,
    {
        let pattern = ProceduralPattern::new();
        match self.storage.insert_pattern(&pattern) {
            Ok(()) => Ok(pattern),
            Err(e) => Err(e),
        }
    }

    /// The pattern with this id, if any. Never fails.
    pub fn get_procedural_pattern(&self, id: AlynxisId) -> (r: Result<Option<ProceduralPattern>, MemoryError>)
        requires
            self.wf(),
        ensures
            r matches Ok(o) && opt_pattern_view(o) == pattern_with_id(self@.patterns, id),
    {
        self.storage.get_pattern(id)
    }

    /// Adds `episode_id` to the pattern's source episodes unless it is
    /// already there, and touches the pattern. Fails with
    /// `ProceduralPatternNotFound`, changing nothing, when no pattern has
    /// `pattern_id`.
    pub fn link_episode_to_pattern(&mut self, pattern_id: AlynxisId, episode_id: AlynxisId) -> (r: Result<(), MemoryError>)
        requires
            old(self).wf(),
        ensures
            final(self).wf(),
            final(self)@.episodes == old(self)@.episodes,
            r is Ok <==> has_pattern(old(self)@.patterns, pattern_id),
            r matches Err(e) ==> e matches MemoryError::ProceduralPatternNotFound(s) && s@ == uuid_text(pattern_id.0)
                && final(self)@ == old(self)@,
            r is Ok ==> pattern_changed(old(self)@.patterns, final(self)@.patterns, pattern_id,
                |p: PatternView| PatternView { source_episode_ids: linked_ids(p.source_episode_ids, episode_id), ..p }),
    {
        let found = self.storage.get_pattern(pattern_id);
        let mut pattern = match found {
            Ok(Some(p)) => p,
            _ => {
                return Err(MemoryError::ProceduralPatternNotFound(pattern_id.to_string()));
            },
        };
        let ghost p0 = pattern@;
        proof { lemma_pattern_with_id(self@.patterns, pattern_id); }
        if !ids_contain(&pattern.source_episode_ids, episode_id) {
            pattern.source_episode_ids.push(episode_id);
        }
        pattern.touch();
        let ghost s = self@.patterns;
        let r = self.storage.update_pattern(&pattern);
        proof {
            let t = self@.patterns;
            assert forall|k: int| 0 <= k < s.len() implies #[trigger] t[k] == (
                if s[k].id == pattern_id {
                    PatternView { last_touched_unix: t[k].last_touched_unix,
                        ..(PatternView { source_episode_ids: linked_ids(s[k].source_episode_ids, episode_id), ..s[k] }) }
                } else {
                    s[k]
                }) by {
                if s[k].id == pattern_id {
                    assert(s[k] == p0);
                }
            }
        }
        r
    }

    /// Sets the pattern's schema node and touches it. Fails with
    /// `ProceduralPatternNotFound`, changing nothing, when no pattern has
    /// `pattern_id`.
    pub fn set_pattern_schema_node(&mut self, pattern_id: AlynxisId, schema_node_id: AlynxisId) -> (r: Result<(), MemoryError>)
        requires
            old(self).wf(),
        ensures
            final(self).wf(),
            final(self)@.episodes == old(self)@.episodes,
            r is Ok <==> has_pattern(old(self)@.patterns, pattern_id),
            r matches Err(e) ==> e matches MemoryError::ProceduralPatternNotFound(s) && s@ == uuid_text(pattern_id.0)
                && final(self)@ == old(self)@,
            r is Ok ==> pattern_changed(old(self)@.patterns, final(self)@.patterns, pattern_id,
                |p: PatternView| PatternView { schema_node_id: Some(schema_node_id), ..p }),
    {
        let found = self.storage.get_pattern(pattern_id);
        let mut pattern = match found {
            Ok(Some(p)) => p,
            _ => {
                return Err(MemoryError::ProceduralPatternNotFound(pattern_id.to_string()));
            },
        };
        let ghost p0 = pattern@;
        proof { lemma_pattern_with_id(self@.patterns, pattern_id); }
        pattern.schema_node_id = Some(schema_node_id);
        pattern.touch();
        let ghost s = self@.patterns;
        let r = self.storage.update_pattern(&pattern);
        proof {
            let t = self@.patterns;
            assert forall|k: int| 0 <= k < s.len() implies #[trigger] t[k] == (
                if s[k].id == pattern_id {
                    PatternView { last_touched_unix: t[k].last_touched_unix,
                        ..(PatternView { schema_node_id: Some(schema_node_id), ..s[k] }) }
                } else {
                    s[k]
                }) by {
                if s[k].id == pattern_id {
                    assert(s[k] == p0);
                }
            }
        }
        r
    }

    /// How many patterns are stored. Never fails.
    pub fn pattern_count(&self) -> (r: Result<u64, MemoryError>)
        ensures
            r matches Ok(n) && n == self@.patterns.len(),
    {
        self.storage.pattern_count()
    }

    /// The tables behind this store.
    pub fn storage(&self) -> (r: &Storage)
        ensures
            r@ == self@,
    {
        &self.storage
    }
}

/// The pattern found by id is a pattern of the table with that id, and it
/// is the only one (ids being unique).
pub proof fn lemma_pattern_with_id(s: Seq<PatternView>, id: AlynxisId)
    requires
        pattern_ids_unique(s),
    ensures
        pattern_with_id(s, id) matches Some(p) ==> p.id == id
            && forall|k: int| 0 <= k < s.len() && s[k].id == id ==> s[k] == p,
        pattern_with_id(s, id) is None <==> !has_pattern(s, id),
{
}

} // verus!
