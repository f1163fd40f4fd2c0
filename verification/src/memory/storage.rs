//! The tables behind the memory store: episodes, kept in ascending
//! timestamp order, and procedural patterns, each keyed by a unique id.

use vstd::prelude::*;
use crate::ids::{AlynxisId, uuid_text, uuid_parsed, ids_parse, parsed_ids, parsed_id, parse_stored_id, parse_stored_ids};
use crate::clock::now_unix;
use crate::text::{owned, str_eq, debug_quoted, debug_quote};
use crate::memory::episode::{Episode, EpisodeView, MemoryTier};
use crate::memory::procedural::{ProceduralPattern, PatternView};
use crate::memory::error::MemoryError;

verus! {

/// The views of a list of episodes.
pub open spec fn episode_views(v: Seq<Episode>) -> Seq<EpisodeView> {
    v.map_values(|e: Episode| e@)
}

/// The views of a list of patterns.
pub open spec fn pattern_views(v: Seq<ProceduralPattern>) -> Seq<PatternView> {
    v.map_values(|p: ProceduralPattern| p@)
}

/// The view of an optional episode.
pub open spec fn opt_episode_view(o: Option<Episode>) -> Option<EpisodeView> {
    match o {
        Some(e) => Some(e@),
        None => None,
    }
}

/// The view of an optional pattern.
pub open spec fn opt_pattern_view(o: Option<ProceduralPattern>) -> Option<PatternView> {
    match o {
        Some(p) => Some(p@),
        None => None,
    }
}

/// Whether some episode of `s` has id `id`.
pub open spec fn has_episode(s: Seq<EpisodeView>, id: AlynxisId) -> bool {
    exists|i: int| 0 <= i < s.len() && s[i].id == id
}

/// The episode of `s` with id `id`, if any.
pub open spec fn episode_with_id(s: Seq<EpisodeView>, id: AlynxisId) -> Option<EpisodeView> {
    if has_episode(s, id) {
        Some(s[choose|i: int| 0 <= i < s.len() && s[i].id == id])
    } else {
        None
    }
}

/// Whether some pattern of `s` has id `id`.
pub open spec fn has_pattern(s: Seq<PatternView>, id: AlynxisId) -> bool {
    exists|i: int| 0 <= i < s.len() && s[i].id == id
}

/// The pattern of `s` with id `id`, if any.
pub open spec fn pattern_with_id(s: Seq<PatternView>, id: AlynxisId) -> Option<PatternView> {
    if has_pattern(s, id) {
        Some(s[choose|i: int| 0 <= i < s.len() && s[i].id == id])
    } else {
        None
    }
}

/// No two episodes share an id.
pub open spec fn episode_ids_unique(s: Seq<EpisodeView>) -> bool {
    forall|i: int, j: int| 0 <= i < s.len() && 0 <= j < s.len() && i != j ==> s[i].id != s[j].id
}

/// No two patterns share an id.
pub open spec fn pattern_ids_unique(s: Seq<PatternView>) -> bool {
    forall|i: int, j: int| 0 <= i < s.len() && 0 <= j < s.len() && i != j ==> s[i].id != s[j].id
}

/// Episodes in ascending timestamp order.
pub open spec fn sorted_by_time(s: Seq<EpisodeView>) -> bool {
    forall|i: int, j: int| 0 <= i <= j < s.len() ==> s[i].timestamp_ms <= s[j].timestamp_ms
}

/// The episodes of `s` whose experiencer is `x`, most recent first (ties
/// latest-stored first), at most `limit` of them.
pub open spec fn most_recent_for(s: Seq<EpisodeView>, x: AlynxisId, limit: nat) -> Seq<EpisodeView>
    decreases s.len(),
{
    if s.len() == 0 || limit == 0 {
        Seq::empty()
    } else if s.last().experiencer == x {
        seq![s.last()] + most_recent_for(s.drop_last(), x, (limit - 1) as nat)
    } else {
        most_recent_for(s.drop_last(), x, limit)
    }
}

/// The episodes of `s` in tier `t`, in the order of `s`.
pub open spec fn in_tier(s: Seq<EpisodeView>, t: MemoryTier) -> Seq<EpisodeView>
    decreases s.len(),
{
    if s.len() == 0 {
        Seq::empty()
    } else if s.last().tier == t {
        in_tier(s.drop_last(), t).push(s.last())
    } else {
        in_tier(s.drop_last(), t)
    }
}

/// `s` with episode `e` placed after every episode whose timestamp is at
/// most `e`'s and before every later one.
pub open spec fn inserted_in_time_order(s: Seq<EpisodeView>, e: EpisodeView, r: Seq<EpisodeView>) -> bool {
    exists|p: int| {
        &&& 0 <= p <= s.len()
        &&& (forall|k: int| 0 <= k < p ==> s[k].timestamp_ms <= e.timestamp_ms)
        &&& (forall|k: int| p <= k < s.len() ==> s[k].timestamp_ms > e.timestamp_ms)
        &&& r == s.insert(p, e)
    }
}

/// `new` is `old` with the episode whose id is `id` moved to tier `tier`
/// and given some new last-touched time; every other episode unchanged.
pub open spec fn tier_set(old: Seq<EpisodeView>, new: Seq<EpisodeView>, id: AlynxisId, tier: MemoryTier) -> bool {
    &&& new.len() == old.len()
    &&& forall|k: int| 0 <= k < old.len() ==> #[trigger] new[k] == (
        if old[k].id == id {
            EpisodeView { tier: tier, last_touched_unix: new[k].last_touched_unix, ..old[k] }
        } else {
            old[k]
        })
}

/// How a tier is written in stored rows.
pub open spec fn tier_text(t: MemoryTier) -> Seq<char> {
    match t {
        MemoryTier::Episodic => "episodic"@,
        MemoryTier::Cold => "cold"@,
    }
}

/// The stored text of a tier: `episodic` or `cold`.
pub fn tier_to_str(tier: MemoryTier) -> (r: &'static str)
    ensures
        r@ == tier_text(tier),
{
    match tier {
        MemoryTier::Episodic => "episodic",
        MemoryTier::Cold => "cold",
    }
}

/// The tier stored as `s`; `Malformed("unknown tier <s quoted>")` for any
/// other text.
pub fn tier_from_str(s: &str) -> (r: Result<MemoryTier, MemoryError>)
    ensures
        s@ == "episodic"@ ==> r matches Ok(MemoryTier::Episodic),
        s@ == "cold"@ ==> r matches Ok(MemoryTier::Cold),
        s@ != "episodic"@ && s@ != "cold"@ ==> (r matches Err(MemoryError::Malformed(m))
            && m@ == "unknown tier "@ + debug_quoted(s@)),
{
    proof {
        reveal_strlit("episodic");
        reveal_strlit("cold");
        assert("episodic"@.len() != "cold"@.len());
    }
    if str_eq(s, "episodic") {
        Ok(MemoryTier::Episodic)
    } else if str_eq(s, "cold") {
        Ok(MemoryTier::Cold)
    } else {
        let mut m = owned("unknown tier ");
        let q = debug_quote(s);
        m.append(q.as_str());
        Err(MemoryError::Malformed(m))
    }
}

/// The episode that a stored row holds: each id text parsed, the tier
/// read from its stored text, the integers as they are. `Malformed` when an
/// id does not parse or the tier text is unknown.
pub fn episode_from_columns(
    id: &str,
    experiencer: &str,
    timestamp_ms: u64,
    node_refs: &Vec<String>,
    edge_refs: &Vec<String>,
    tier: &str,
    last_touched_unix: u64,
) -> (r: Result<Episode, MemoryError>)
    ensures
        r is Ok <==> uuid_parsed(id@) is Ok && uuid_parsed(experiencer@) is Ok && ids_parse(node_refs@)
            && ids_parse(edge_refs@) && (tier@ == "episodic"@ || tier@ == "cold"@),
        r matches Ok(e) ==> {
            &&& e.id == parsed_id(id@)
            &&& e.experiencer == parsed_id(experiencer@)
            &&& e.timestamp_ms == timestamp_ms
            &&& e.node_refs@ == parsed_ids(node_refs@)
            &&& e.edge_refs@ == parsed_ids(edge_refs@)
            &&& tier_text(e.tier) == tier@
            &&& e.last_touched_unix == last_touched_unix
        },
        r matches Err(e) ==> e is Malformed,
{
    let id = match parse_stored_id(id) {
        Ok(x) => x,
        Err(m) => {
            return Err(MemoryError::Malformed(m));
        },
    };
    let experiencer = match parse_stored_id(experiencer) {
        Ok(x) => x,
        Err(m) => {
            return Err(MemoryError::Malformed(m));
        },
    };
    let node_refs = match parse_stored_ids(node_refs) {
        Ok(v) => v,
        Err(m) => {
            return Err(MemoryError::Malformed(m));
        },
    };
    let edge_refs = match parse_stored_ids(edge_refs) {
        Ok(v) => v,
        Err(m) => {
            return Err(MemoryError::Malformed(m));
        },
    };
    proof {
        reveal_strlit("episodic");
        reveal_strlit("cold");
    }
    let tier = match tier_from_str(tier) {
        Ok(t) => t,
        Err(e) => {
            return Err(e);
        },
    };
    Ok(Episode { id, experiencer, timestamp_ms, node_refs, edge_refs, tier, last_touched_unix })
}

/// The procedural pattern that a stored row holds: each id text parsed,
/// the integers as they are. `Malformed` when an id does not parse.
pub fn pattern_from_columns(
    id: &str,
    schema_node_id: Option<&str>,
    source_episode_ids: &Vec<String>,
    created_at_unix: u64,
    last_touched_unix: u64,
) -> (r: Result<ProceduralPattern, MemoryError>)
    ensures
        r is Ok <==> uuid_parsed(id@) is Ok && (schema_node_id matches Some(t) ==> uuid_parsed(t@) is Ok)
            && ids_parse(source_episode_ids@),
        r matches Ok(p) ==> {
            &&& p.id == parsed_id(id@)
            &&& p.schema_node_id == (match schema_node_id {
                Some(t) => Some(parsed_id(t@)),
                None => None,
            })
            &&& p.source_episode_ids@ == parsed_ids(source_episode_ids@)
            &&& p.created_at_unix == created_at_unix
            &&& p.last_touched_unix == last_touched_unix
        },
        r matches Err(e) ==> e is Malformed,
{
    let id = match parse_stored_id(id) {
        Ok(x) => x,
        Err(m) => {
            return Err(MemoryError::Malformed(m));
        },
    };
    let schema_node_id = match schema_node_id {
        Some(t) => match parse_stored_id(t) {
            Ok(x) => Some(x),
            Err(m) => {
                return Err(MemoryError::Malformed(m));
            },
        },
        None => None,
    };
    let source_episode_ids = match parse_stored_ids(source_episode_ids) {
        Ok(v) => v,
        Err(m) => {
            return Err(MemoryError::Malformed(m));
        },
    };
    Ok(ProceduralPattern { id, schema_node_id, source_episode_ids, created_at_unix, last_touched_unix })
}

/// The contents of the memory tables.
pub struct StorageView {
    pub episodes: Seq<EpisodeView>,
    pub patterns: Seq<PatternView>,
}

impl StorageView {
    /// Ids are unique in each table and episodes are in time order.
    pub open spec fn wf(self) -> bool {
        &&& episode_ids_unique(self.episodes)
        &&& pattern_ids_unique(self.patterns)
        &&& sorted_by_time(self.episodes)
    }
}

/// The memory tables.
pub struct Storage {
    episodes: Vec<Episode>,
    patterns: Vec<ProceduralPattern>,
}

impl View for Storage {
    type V = StorageView;

    closed spec fn view(&self) -> StorageView {
        StorageView {
            episodes: episode_views(self.episodes@),
            patterns: pattern_views(self.patterns@),
        }
    }
}

impl Storage {
    /// Well-formedness: see `StorageView::wf`.
    pub open spec fn wf(&self) -> bool {
        self@.wf()
    }

    /// Empty tables. Never fails.
    pub fn open_in_memory() -> (r: Result<Storage, MemoryError>)
        ensures
            r matches Ok(s) && s.wf() && s@.episodes.len() == 0 && s@.patterns.len() == 0,
    {
        let s = Storage { episodes: Vec::new(), patterns: Vec::new() };
        assert(s@.episodes =~= Seq::<EpisodeView>::empty());
        assert(s@.patterns =~= Seq::<PatternView>::empty());
        Ok(s)
    }

    fn find_episode(&self, id: AlynxisId) -> (r: Option<usize>)
        ensures
            match r {
                Some(i) => i < self@.episodes.len() && self@.episodes[i as int].id == id,
                None => !has_episode(self@.episodes, id),
            },
    {
        let mut i: usize = 0;
        while i < self.episodes.len()
            invariant
                i <= self.episodes.len(),
                self@.episodes.len() == self.episodes.len(),
                forall|k: int| 0 <= k < i ==> self@.episodes[k].id != id,
            decreases self.episodes.len() - i,
        {
            proof { assert(self@.episodes[i as int] == self.episodes@[i as int]@); }
            if self.episodes[i].id == id {
                return Some(i);
            }
            i = i + 1;
        }
        None
    }

    fn find_pattern(&self, id: AlynxisId) -> (r: Option<usize>)
        ensures
            match r {
                Some(i) => i < self@.patterns.len() && self@.patterns[i as int].id == id,
                None => !has_pattern(self@.patterns, id),
            },
    {
        let mut i: usize = 0;
        while i < self.patterns.len()
            invariant
                i <= self.patterns.len(),
                self@.patterns.len() == self.patterns.len(),
                forall|k: int| 0 <= k < i ==> self@.patterns[k].id != id,
            decreases self.patterns.len() - i,
        {
            proof { assert(self@.patterns[i as int] == self.patterns@[i as int]@); }
            if self.patterns[i].id == id {
                return Some(i);
            }
            i = i + 1;
        }
        None
    }

    /// Stores a copy of `ep` in time order. Fails, changing nothing, when an
    /// episode with the same id is already stored.
    pub fn insert_episode(&mut self, ep: &Episode) -> (r: Result<(), MemoryError>)
        requires
            old(self).wf(),
        ensures
            final(self).wf(),
            final(self)@.patterns == old(self)@.patterns,
            r is Ok <==> !has_episode(old(self)@.episodes, ep.id),
            r is Ok ==> inserted_in_time_order(old(self)@.episodes, ep@, final(self)@.episodes),
            r matches Err(e) ==> e is Constraint && final(self)@ == old(self)@,
    {
        if self.find_episode(ep.id).is_some() {
            return Err(MemoryError::Constraint(owned("UNIQUE constraint failed: episodes.id")));
        }
        let ghost s = self@.episodes;
        let mut p: usize = 0;
        while p < self.episodes.len() && self.episodes[p].timestamp_ms <= ep.timestamp_ms
            invariant
                p <= self.episodes.len(),
                self@.episodes == s,
                s.len() == self.episodes.len(),
                forall|k: int| 0 <= k < p ==> s[k].timestamp_ms <= ep.timestamp_ms,
            decreases self.episodes.len() - p,
        {
            proof { assert(s[p as int] == self.episodes@[p as int]@); }
            p = p + 1;
        }
        proof {
            if p < s.len() {
                assert(s[p as int] == self.episodes@[p as int]@);
                assert forall|k: int| p <= k < s.len() implies s[k].timestamp_ms > ep.timestamp_ms by {
                    assert(s[p as int].timestamp_ms <= s[k].timestamp_ms);
                }
            }
        }
        let c = ep.clone();
        self.episodes.insert(p, c);
        proof {
            assert(self@.episodes =~= s.insert(p as int, ep@));
            assert(self@.patterns == old(self)@.patterns);
            let t = self@.episodes;
            assert forall|i: int, j: int| 0 <= i < t.len() && 0 <= j < t.len() && i != j implies t[i].id != t[j].id by {
                if i != p && j != p {
                    let i0 = if i < p { i } else { i - 1 };
                    let j0 = if j < p { j } else { j - 1 };
                    assert(t[i] == s[i0] && t[j] == s[j0]);
                } else if i == p {
                    let j0 = if j < p { j } else { j - 1 };
                    assert(t[j] == s[j0]);
                } else {
                    let i0 = if i < p { i } else { i - 1 };
                    assert(t[i] == s[i0]);
                }
            }
            assert forall|i: int, j: int| 0 <= i <= j < t.len() implies t[i].timestamp_ms <= t[j].timestamp_ms by {
                if i < p && j < p {
                } else if i < p && j == p {
                } else if i < p {
                    assert(t[j] == s[j - 1]);
                } else if i == p && j > p {
                    assert(t[j] == s[j - 1]);
                } else if i > p {
                    assert(t[i] == s[i - 1] && t[j] == s[j - 1]);
                }
            }
        }
        Ok(())
    }

    /// Moves the episode with this id to `tier` and sets its last-touched
    /// time to the current time. Fails with `EpisodeNotFound` (carrying the
    /// id's text), changing nothing, when no episode has this id.
    pub fn update_episode_tier(&mut self, id: AlynxisId, tier: MemoryTier) -> (r: Result<(), MemoryError>)
        requires
            old(self).wf(),
        ensures
            final(self).wf(),
            final(self)@.patterns == old(self)@.patterns,
            r is Ok <==> has_episode(old(self)@.episodes, id),
            r matches Err(e) ==> e matches MemoryError::EpisodeNotFound(s) && s@ == uuid_text(id.0)
                && final(self)@ == old(self)@,
            r is Ok ==> tier_set(old(self)@.episodes, final(self)@.episodes, id, tier),
    {
        match self.find_episode(id) {
            None => Err(MemoryError::EpisodeNotFound(id.to_string())),
            Some(i) => {
                let ghost s = self@.episodes;
                let mut e = self.episodes[i].clone();
                e.tier = tier;
                e.last_touched_unix = now_unix();
                self.episodes.set(i, e);
                proof {
                    let t = self@.episodes;
                    assert(t =~= s.update(i as int, t[i as int]));
                    assert forall|k: int| 0 <= k < s.len() implies #[trigger] t[k] == (
                        if s[k].id == id {
                            EpisodeView { tier: tier, last_touched_unix: t[k].last_touched_unix, ..s[k] }
                        } else {
                            s[k]
                        }) by {
                        if k != i {
                            assert(s[k].id != s[i as int].id);
                        }
                    }
                    assert forall|a: int, b: int| 0 <= a < t.len() && 0 <= b < t.len() && a != b implies t[a].id != t[b].id by {
                        assert(s[a].id != s[b].id);
                    }
                    assert forall|a: int, b: int| 0 <= a <= b < t.len() implies t[a].timestamp_ms <= t[b].timestamp_ms by {
                        assert(s[a].timestamp_ms <= s[b].timestamp_ms);
                    }
                    assert(self@.patterns == old(self)@.patterns);
                }
                Ok(())
            },
        }
    }

    /// A copy of the episode with this id, if any. Never fails.
    pub fn get_episode(&self, id: AlynxisId) -> (r: Result<Option<Episode>, MemoryError>)
        requires
            self.wf(),
        ensures
            r matches Ok(o) && opt_episode_view(o) == episode_with_id(self@.episodes, id),
    {
        match self.find_episode(id) {
            None => Ok(None),
            Some(i) => {
                let e = self.episodes[i].clone();
                proof {
                    let s = self@.episodes;
                    assert(s[i as int] == self.episodes@[i as int]@);
                    assert(has_episode(s, id));
                    let c = choose|j: int| 0 <= j < s.len() && s[j].id == id;
                    assert(c == i);
                }
                Ok(Some(e))
            },
        }
    }

    /// Copies of the episodes whose experiencer is `experiencer`, most
    /// recent first, whatever their tier, at most `limit` of them. Never
    /// fails.
    pub fn episodes_for_experiencer(&self, experiencer: AlynxisId, limit: u32) -> (r: Result<Vec<Episode>, MemoryError>)
        requires
            self.wf(),
        ensures
            r matches Ok(v) && episode_views(v@) == most_recent_for(self@.episodes, experiencer, limit as nat),
    {
        let ghost s = self@.episodes;
        let mut res: Vec<Episode> = Vec::new();
        let mut i: usize = self.episodes.len();
        proof {
            assert(s.take(i as int) =~= s);
            assert(episode_views(res@) =~= Seq::<EpisodeView>::empty());
            assert(Seq::<EpisodeView>::empty() + most_recent_for(s, experiencer, limit as nat)
                =~= most_recent_for(s, experiencer, limit as nat));
        }
        while i > 0
            invariant
                i <= self.episodes.len(),
                s == self@.episodes,
                s.len() == self.episodes.len(),
                res.len() <= limit,
                episode_views(res@) + most_recent_for(s.take(i as int), experiencer, (limit - res.len()) as nat)
                    == most_recent_for(s, experiencer, limit as nat),
            decreases i,
        {
            let ghost before = episode_views(res@);
            let ghost rem = (limit - res.len()) as nat;
            i = i - 1;
            proof {
                let t = s.take(i as int + 1);
                assert(t.drop_last() =~= s.take(i as int));
                assert(t.last() == s[i as int]);
                assert(s[i as int] == self.episodes@[i as int]@);
            }
            if (res.len() as u64) < (limit as u64) && self.episodes[i].experiencer == experiencer {
                let e = self.episodes[i].clone();
                res.push(e);
                proof {
                    assert(episode_views(res@) =~= before.push(s[i as int]));
                    assert(before.push(s[i as int]) + most_recent_for(s.take(i as int), experiencer, (rem - 1) as nat)
                        =~= before + (seq![s[i as int]] + most_recent_for(s.take(i as int), experiencer, (rem - 1) as nat)));
                }
            }
        }
        proof {
            assert(s.take(0) =~= Seq::<EpisodeView>::empty());
            assert(episode_views(res@) + Seq::<EpisodeView>::empty() =~= episode_views(res@));
        }
        Ok(res)
    }

    /// Copies of the episodes in `tier`, oldest first. Never fails.
    pub fn episodes_in_tier(&self, tier: MemoryTier) -> (r: Result<Vec<Episode>, MemoryError>)
        requires
            self.wf(),
        ensures
            r matches Ok(v) && episode_views(v@) == in_tier(self@.episodes, tier),
    {
        let ghost s = self@.episodes;
        let mut res: Vec<Episode> = Vec::new();
        let mut i: usize = 0;
        while i < self.episodes.len()
            invariant
                i <= self.episodes.len(),
                s == self@.episodes,
                s.len() == self.episodes.len(),
                episode_views(res@) == in_tier(s.take(i as int), tier),
            decreases self.episodes.len() - i,
        {
            let ghost before = episode_views(res@);
            proof {
                let t = s.take(i as int + 1);
                assert(t.drop_last() =~= s.take(i as int));
                assert(t.last() == s[i as int]);
                assert(s[i as int] == self.episodes@[i as int]@);
            }
            if self.episodes[i].tier == tier {
                let e = self.episodes[i].clone();
                res.push(e);
                proof { assert(episode_views(res@) =~= before.push(s[i as int])); }
            }
            i = i + 1;
        }
        proof { assert(s.take(s.len() as int) =~= s); }
        Ok(res)
    }

    /// How many episodes are stored. Never fails.
    pub fn episode_count(&self) -> (r: Result<u64, MemoryError>)
        ensures
            r matches Ok(n) && n == self@.episodes.len(),
    {
        Ok(self.episodes.len() as u64)
    }

    /// Stores a copy of `p`. Fails, changing nothing, when a pattern with
    /// the same id is already stored.
    pub fn insert_pattern(&mut self, p: &ProceduralPattern) -> (r: Result<(), MemoryError>)
        requires
            old(self).wf(),
        ensures
            final(self).wf(),
            final(self)@.episodes == old(self)@.episodes,
            r is Ok <==> !has_pattern(old(self)@.patterns, p.id),
            r is Ok ==> final(self)@.patterns == old(self)@.patterns.push(p@),
            r matches Err(e) ==> e is Constraint && final(self)@ == old(self)@,
    {
        if self.find_pattern(p.id).is_some() {
            return Err(MemoryError::Constraint(owned("UNIQUE constraint failed: procedural_patterns.id")));
        }
        let ghost s = self@.patterns;
        let c = p.clone();
        self.patterns.push(c);
        proof {
            let t = self@.patterns;
            assert(t =~= s.push(p@));
            assert forall|i: int, j: int| 0 <= i < t.len() && 0 <= j < t.len() && i != j implies t[i].id != t[j].id by {
                if i < s.len() && j < s.len() {
                    assert(t[i] == s[i] && t[j] == s[j]);
                } else if i < s.len() {
                    assert(t[i] == s[i]);
                } else {
                    assert(t[j] == s[j]);
                }
            }
            assert(self@.episodes == old(self)@.episodes);
        }
        Ok(())
    }

    /// Writes `p`'s schema node, source episodes and last-touched time into
    /// the stored pattern with `p`'s id (its creation time is kept). Fails
    /// with `ProceduralPatternNotFound` (carrying the id's text), changing
    /// nothing, when no pattern has that id.
    pub fn update_pattern(&mut self, p: &ProceduralPattern) -> (r: Result<(), MemoryError>)
        requires
            old(self).wf(),
        ensures
            final(self).wf(),
            final(self)@.episodes == old(self)@.episodes,
            r is Ok <==> has_pattern(old(self)@.patterns, p.id),
            r matches Err(e) ==> e matches MemoryError::ProceduralPatternNotFound(s) && s@ == uuid_text(p.id.0)
                && final(self)@ == old(self)@,
            r is Ok ==> final(self)@.patterns.len() == old(self)@.patterns.len(),
            r is Ok ==> forall|k: int| 0 <= k < old(self)@.patterns.len() ==> #[trigger] final(self)@.patterns[k] == (
                if old(self)@.patterns[k].id == p.id {
                    PatternView { created_at_unix: old(self)@.patterns[k].created_at_unix, ..p@ }
                } else {
                    old(self)@.patterns[k]
                }),
    {
        match self.find_pattern(p.id) {
            None => Err(MemoryError::ProceduralPatternNotFound(p.id.to_string())),
            Some(i) => {
                let ghost s = self@.patterns;
                let created = self.patterns[i].created_at_unix;
                let mut c = p.clone();
                c.created_at_unix = created;
                self.patterns.set(i, c);
                proof {
                    let t = self@.patterns;
                    assert(s[i as int] == old(self).patterns@[i as int]@);
                    assert forall|k: int| 0 <= k < s.len() implies #[trigger] t[k] == (
                        if s[k].id == p.id {
                            PatternView { created_at_unix: s[k].created_at_unix, ..p@ }
                        } else {
                            s[k]
                        }) by {
                        if k != i {
                            assert(s[k].id != s[i as int].id);
                            assert(t[k] == s[k]);
                        }
                    }
                    assert forall|a: int, b: int| 0 <= a < t.len() && 0 <= b < t.len() && a != b implies t[a].id != t[b].id by {
                        assert(s[a].id != s[b].id);
                    }
                    assert(self@.episodes == old(self)@.episodes);
                }
                Ok(())
            },
        }
    }

    /// A copy of the pattern with this id, if any. Never fails.
    pub fn get_pattern(&self, id: AlynxisId) -> (r: Result<Option<ProceduralPattern>, MemoryError>)
        requires
            self.wf(),
        ensures
            r matches Ok(o) && opt_pattern_view(o) == pattern_with_id(self@.patterns, id),
    {
        match self.find_pattern(id) {
            None => Ok(None),
            Some(i) => {
                let p = self.patterns[i].clone();
                proof {
                    let s = self@.patterns;
                    assert(s[i as int] == self.patterns@[i as int]@);
                    assert(has_pattern(s, id));
                    let c = choose|j: int| 0 <= j < s.len() && s[j].id == id;
                    assert(c == i);
                }
                Ok(Some(p))
            },
        }
    }

    /// How many patterns are stored. Never fails.
    pub fn pattern_count(&self) -> (r: Result<u64, MemoryError>)
        ensures
            r matches Ok(n) && n == self@.patterns.len(),
    {
        Ok(self.patterns.len() as u64)
    }

    /// Copies of all stored episodes, in time order.
    pub fn episodes(&self) -> (r: Vec<Episode>)
        ensures
            episode_views(r@) == self@.episodes,
    {
        let mut res: Vec<Episode> = Vec::new();
        let mut i: usize = 0;
        while i < self.episodes.len()
            invariant
                i <= self.episodes.len(),
                episode_views(res@) == self@.episodes.take(i as int),
            decreases self.episodes.len() - i,
        {
            let ghost prev = res@;
            assert(episode_views(prev).len() == prev.len());
            proof { assert(self@.episodes[i as int] == self.episodes@[i as int]@); }
            let e = self.episodes[i].clone();
            res.push(e);
            i = i + 1;
            assert forall|k: int| 0 <= k < i implies #[trigger] episode_views(res@)[k] == self@.episodes.take(i as int)[k] by {
                if k < i - 1 {
                    assert(res@[k] == prev[k]);
                    assert(episode_views(prev)[k] == self@.episodes.take(i - 1)[k]);
                }
            }
            assert(episode_views(res@) =~= self@.episodes.take(i as int));
        }
        assert(self@.episodes.take(self.episodes.len() as int) =~= self@.episodes);
        res
    }

    /// Copies of all stored patterns, in table order.
    pub fn patterns(&self) -> (r: Vec<ProceduralPattern>)
        ensures
            pattern_views(r@) == self@.patterns,
    {
        let mut res: Vec<ProceduralPattern> = Vec::new();
        let mut i: usize = 0;
        while i < self.patterns.len()
            invariant
                i <= self.patterns.len(),
                pattern_views(res@) == self@.patterns.take(i as int),
            decreases self.patterns.len() - i,
        {
            let ghost prev = res@;
            assert(pattern_views(prev).len() == prev.len());
            proof { assert(self@.patterns[i as int] == self.patterns@[i as int]@); }
            let p = self.patterns[i].clone();
            res.push(p);
            i = i + 1;
            assert forall|k: int| 0 <= k < i implies #[trigger] pattern_views(res@)[k] == self@.patterns.take(i as int)[k] by {
                if k < i - 1 {
                    assert(res@[k] == prev[k]);
                    assert(pattern_views(prev)[k] == self@.patterns.take(i - 1)[k]);
                }
            }
            assert(pattern_views(res@) =~= self@.patterns.take(i as int));
        }
        assert(self@.patterns.take(self.patterns.len() as int) =~= self@.patterns);
        res
    }
}

} // verus!
