//! Tier transitions: the mechanical move of an episode between the
//! episodic and cold tiers. No judgment about when to move is made here.

use vstd::prelude::*;
use crate::ids::{AlynxisId, uuid_text};
use crate::memory::episode::MemoryTier;
use crate::memory::error::MemoryError;
use crate::memory::storage::{Storage, has_episode, tier_set};

verus! {

/// Moves the episode to the cold tier (a no-op rewrite when it is already
/// cold, apart from its last-touched time). Fails with `EpisodeNotFound`,
/// changing nothing, when no episode has this id.
pub fn demote_to_cold(storage: &mut Storage, episode_id: AlynxisId) -> (r: Result<(), MemoryError>)
    requires
        old(storage).wf(),
    ensures
        final(storage).wf(),
        final(storage)@.patterns == old(storage)@.patterns,
        r is Ok <==> has_episode(old(storage)@.episodes, episode_id),
        r matches Err(e) ==> e matches MemoryError::EpisodeNotFound(s) && s@ == uuid_text(episode_id.0)
            && final(storage)@ == old(storage)@,
        r is Ok ==> tier_set(old(storage)@.episodes, final(storage)@.episodes, episode_id, MemoryTier::Cold),
{
    storage.update_episode_tier(episode_id, MemoryTier::Cold)
}

/// Moves the episode back to the episodic tier. Fails with
/// `EpisodeNotFound`, changing nothing, when no episode has this id.
pub fn promote_from_cold(storage: &mut Storage, episode_id: AlynxisId) -> (r: Result<(), MemoryError>)
    requires
        old(storage).wf(),
    ensures
        final(storage).wf(),
        final(storage)@.patterns == old(storage)@.patterns,
        r is Ok <==> has_episode(old(storage)@.episodes, episode_id),
        r matches Err(e) ==> e matches MemoryError::EpisodeNotFound(s) && s@ == uuid_text(episode_id.0)
            && final(storage)@ == old(storage)@,
        r is Ok ==> tier_set(old(storage)@.episodes, final(storage)@.episodes, episode_id, MemoryTier::Episodic),
{
    storage.update_episode_tier(episode_id, MemoryTier::Episodic)
}

} // verus!
