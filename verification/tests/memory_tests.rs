use alynxis::ids::AlynxisId;
use alynxis::memory::episode::{Episode, MemoryTier};
use alynxis::memory::error::MemoryError;
use alynxis::memory::memory_store::MemoryStore;
use alynxis::memory::procedural::ProceduralPattern;
use alynxis::memory::storage::{episode_from_columns, pattern_from_columns, Storage};
use alynxis::memory::tiers::{demote_to_cold, promote_from_cold};
use std::time::{Duration, Instant, SystemTime, UNIX_EPOCH};

fn wait(ms: u64) {
    let start = Instant::now();
    while start.elapsed() < Duration::from_millis(ms) {}
}

fn millis() -> u64 {
    SystemTime::now()
        .duration_since(UNIX_EPOCH)
        .unwrap_or_default()
        .as_millis() as u64
}

#[test]
fn new_episode_starts_in_episodic_tier_with_fresh_timestamp() {
    let before = millis();
    let ep = Episode::new(AlynxisId::new(), vec![AlynxisId::new()], vec![]);
    let after = millis();
    assert_eq!(ep.tier, MemoryTier::Episodic);
    assert!(ep.timestamp_ms >= before && ep.timestamp_ms <= after);
}

#[test]
fn distinct_episodes_get_distinct_ids() {
    let a = Episode::new(AlynxisId::new(), vec![], vec![]);
    let b = Episode::new(AlynxisId::new(), vec![], vec![]);
    assert_ne!(a.id, b.id);
}

#[test]
fn record_and_retrieve_episode_through_facade() {
    let mut store = MemoryStore::open_in_memory().unwrap();
    let experiencer = AlynxisId::new();
    let node = AlynxisId::new();
    let episode = store
        .record_episode(experiencer, vec![node], vec![])
        .unwrap();

    let loaded = store.get_episode(episode.id).unwrap().unwrap();
    assert_eq!(loaded.node_refs, vec![node]);
}

#[test]
fn recent_episodes_returns_across_both_tiers() {
    let mut store = MemoryStore::open_in_memory().unwrap();
    let experiencer = AlynxisId::new();
    let ep1 = store.record_episode(experiencer, vec![], vec![]).unwrap();
    let ep2 = store.record_episode(experiencer, vec![], vec![]).unwrap();
    store.demote_to_cold(ep1.id).unwrap();

    let recent = store.recent_episodes(experiencer, 10).unwrap();
    let ids: Vec<_> = recent.iter().map(|e| e.id).collect();
    assert!(ids.contains(&ep1.id));
    assert!(ids.contains(&ep2.id));
}

#[test]
fn procedural_pattern_lifecycle_through_facade() {
    let mut store = MemoryStore::open_in_memory().unwrap();
    let pattern = store.create_procedural_pattern().unwrap();
    assert!(pattern.schema_node_id.is_none());

    let ep = store
        .record_episode(AlynxisId::new(), vec![], vec![])
        .unwrap();
    store.link_episode_to_pattern(pattern.id, ep.id).unwrap();

    let schema_node = AlynxisId::new();
    store
        .set_pattern_schema_node(pattern.id, schema_node)
        .unwrap();

    let loaded = store.get_procedural_pattern(pattern.id).unwrap().unwrap();
    assert_eq!(loaded.source_episode_ids, vec![ep.id]);
    assert_eq!(loaded.schema_node_id, Some(schema_node));
}

#[test]
fn linking_same_episode_twice_does_not_duplicate() {
    let mut store = MemoryStore::open_in_memory().unwrap();
    let pattern = store.create_procedural_pattern().unwrap();
    let ep = store
        .record_episode(AlynxisId::new(), vec![], vec![])
        .unwrap();

    store.link_episode_to_pattern(pattern.id, ep.id).unwrap();
    store.link_episode_to_pattern(pattern.id, ep.id).unwrap();

    let loaded = store.get_procedural_pattern(pattern.id).unwrap().unwrap();
    assert_eq!(loaded.source_episode_ids.len(), 1);
}

#[test]
fn linking_to_a_missing_pattern_errors() {
    let mut store = MemoryStore::open_in_memory().unwrap();
    let missing = AlynxisId::from_u128(7);
    let result = store.link_episode_to_pattern(missing, AlynxisId::new());
    match result {
        Err(MemoryError::ProceduralPatternNotFound(s)) => {
            assert_eq!(s, "00000000-0000-0000-0000-000000000007")
        }
        _ => panic!("expected ProceduralPatternNotFound"),
    }
    assert!(matches!(
        store.set_pattern_schema_node(missing, AlynxisId::new()),
        Err(MemoryError::ProceduralPatternNotFound(_))
    ));
}

#[test]
fn counts_reflect_recorded_data() {
    let mut store = MemoryStore::open_in_memory().unwrap();
    store
        .record_episode(AlynxisId::new(), vec![], vec![])
        .unwrap();
    store
        .record_episode(AlynxisId::new(), vec![], vec![])
        .unwrap();
    store.create_procedural_pattern().unwrap();

    assert_eq!(store.episode_count().unwrap(), 2);
    assert_eq!(store.pattern_count().unwrap(), 1);
}

#[test]
fn new_pattern_starts_empty_and_unlinked() {
    let p = ProceduralPattern::new();
    assert!(p.schema_node_id.is_none());
    assert!(p.source_episode_ids.is_empty());
}

#[test]
fn insert_and_get_episode_round_trips() {
    let mut storage = Storage::open_in_memory().unwrap();
    let ep = Episode::new(
        AlynxisId::new(),
        vec![AlynxisId::new(), AlynxisId::new()],
        vec![AlynxisId::new()],
    );
    storage.insert_episode(&ep).unwrap();

    let loaded = storage.get_episode(ep.id).unwrap().unwrap();
    assert_eq!(loaded.id, ep.id);
    assert_eq!(loaded.experiencer, ep.experiencer);
    assert_eq!(loaded.node_refs, ep.node_refs);
    assert_eq!(loaded.edge_refs, ep.edge_refs);
    assert_eq!(loaded.tier, MemoryTier::Episodic);
}

#[test]
fn inserting_the_same_episode_twice_is_refused() {
    let mut storage = Storage::open_in_memory().unwrap();
    let ep = Episode::new(AlynxisId::new(), vec![], vec![]);
    storage.insert_episode(&ep).unwrap();
    assert!(matches!(storage.insert_episode(&ep), Err(MemoryError::Constraint(_))));
    assert_eq!(storage.episode_count().unwrap(), 1);
}

#[test]
fn get_nonexistent_episode_returns_none() {
    let storage = Storage::open_in_memory().unwrap();
    assert!(storage.get_episode(AlynxisId::new()).unwrap().is_none());
}

#[test]
fn update_tier_moves_episode_to_cold_and_back() {
    let mut storage = Storage::open_in_memory().unwrap();
    let ep = Episode::new(AlynxisId::new(), vec![], vec![]);
    storage.insert_episode(&ep).unwrap();

    storage
        .update_episode_tier(ep.id, MemoryTier::Cold)
        .unwrap();
    assert_eq!(
        storage.get_episode(ep.id).unwrap().unwrap().tier,
        MemoryTier::Cold
    );

    storage
        .update_episode_tier(ep.id, MemoryTier::Episodic)
        .unwrap();
    assert_eq!(
        storage.get_episode(ep.id).unwrap().unwrap().tier,
        MemoryTier::Episodic
    );
}

#[test]
fn update_tier_on_nonexistent_episode_errors() {
    let mut storage = Storage::open_in_memory().unwrap();
    let result = storage.update_episode_tier(AlynxisId::new(), MemoryTier::Cold);
    assert!(matches!(result, Err(MemoryError::EpisodeNotFound(_))));
}

#[test]
fn episodes_for_experiencer_orders_most_recent_first_and_respects_limit() {
    let mut storage = Storage::open_in_memory().unwrap();
    let experiencer = AlynxisId::new();
    let mut ids_in_insertion_order = Vec::new();
    for _ in 0..5 {
        let ep = Episode::new(experiencer, vec![], vec![]);
        ids_in_insertion_order.push(ep.id);
        storage.insert_episode(&ep).unwrap();
        wait(2);
    }

    let recent = storage.episodes_for_experiencer(experiencer, 3).unwrap();
    assert_eq!(recent.len(), 3);
    // Most recently inserted should come first.
    assert_eq!(recent[0].id, *ids_in_insertion_order.last().unwrap());
}

#[test]
fn episodes_are_ordered_by_timestamp_not_insertion() {
    let mut storage = Storage::open_in_memory().unwrap();
    let experiencer = AlynxisId::new();
    let mut late = Episode::new(experiencer, vec![], vec![]);
    late.timestamp_ms = 300;
    let mut early = Episode::new(experiencer, vec![], vec![]);
    early.timestamp_ms = 100;
    let mut middle = Episode::new(experiencer, vec![], vec![]);
    middle.timestamp_ms = 200;
    storage.insert_episode(&late).unwrap();
    storage.insert_episode(&early).unwrap();
    storage.insert_episode(&middle).unwrap();
    let recent = storage.episodes_for_experiencer(experiencer, 10).unwrap();
    let stamps: Vec<u64> = recent.iter().map(|e| e.timestamp_ms).collect();
    assert_eq!(stamps, vec![300, 200, 100]);
    let oldest_first = storage.episodes_in_tier(MemoryTier::Episodic).unwrap();
    let stamps: Vec<u64> = oldest_first.iter().map(|e| e.timestamp_ms).collect();
    assert_eq!(stamps, vec![100, 200, 300]);
    assert!(storage.episodes_for_experiencer(experiencer, 0).unwrap().is_empty());
    assert!(storage.episodes_for_experiencer(AlynxisId::new(), 10).unwrap().is_empty());
}

#[test]
fn episodes_for_experiencer_includes_cold_tier_per_unified_facade_principle() {
    let mut storage = Storage::open_in_memory().unwrap();
    let experiencer = AlynxisId::new();
    let ep = Episode::new(experiencer, vec![], vec![]);
    storage.insert_episode(&ep).unwrap();
    storage
        .update_episode_tier(ep.id, MemoryTier::Cold)
        .unwrap();

    let results = storage.episodes_for_experiencer(experiencer, 10).unwrap();
    assert_eq!(
        results.len(),
        1,
        "cold-tier episodes must still be visible through the unified facade query"
    );
}

#[test]
fn episodes_in_tier_filters_correctly() {
    let mut storage = Storage::open_in_memory().unwrap();
    let experiencer = AlynxisId::new();
    let ep1 = Episode::new(experiencer, vec![], vec![]);
    let ep2 = Episode::new(experiencer, vec![], vec![]);
    storage.insert_episode(&ep1).unwrap();
    storage.insert_episode(&ep2).unwrap();
    storage
        .update_episode_tier(ep2.id, MemoryTier::Cold)
        .unwrap();

    assert_eq!(
        storage
            .episodes_in_tier(MemoryTier::Episodic)
            .unwrap()
            .len(),
        1
    );
    assert_eq!(storage.episodes_in_tier(MemoryTier::Cold).unwrap().len(), 1);
}

#[test]
fn insert_and_get_pattern_round_trips() {
    let mut storage = Storage::open_in_memory().unwrap();
    let mut pattern = ProceduralPattern::new();
    pattern.source_episode_ids.push(AlynxisId::new());
    storage.insert_pattern(&pattern).unwrap();

    let loaded = storage.get_pattern(pattern.id).unwrap().unwrap();
    assert_eq!(loaded.source_episode_ids, pattern.source_episode_ids);
    assert!(loaded.schema_node_id.is_none());
}

#[test]
fn update_pattern_sets_schema_node() {
    let mut storage = Storage::open_in_memory().unwrap();
    let mut pattern = ProceduralPattern::new();
    storage.insert_pattern(&pattern).unwrap();

    let schema_node = AlynxisId::new();
    pattern.schema_node_id = Some(schema_node);
    storage.update_pattern(&pattern).unwrap();

    let loaded = storage.get_pattern(pattern.id).unwrap().unwrap();
    assert_eq!(loaded.schema_node_id, Some(schema_node));
}

#[test]
fn update_pattern_keeps_creation_time() {
    let mut storage = Storage::open_in_memory().unwrap();
    let mut pattern = ProceduralPattern::new();
    pattern.created_at_unix = 5;
    storage.insert_pattern(&pattern).unwrap();
    pattern.created_at_unix = 99;
    pattern.last_touched_unix = 100;
    storage.update_pattern(&pattern).unwrap();
    let loaded = storage.get_pattern(pattern.id).unwrap().unwrap();
    assert_eq!(loaded.created_at_unix, 5);
    assert_eq!(loaded.last_touched_unix, 100);
    let missing = ProceduralPattern::new();
    assert!(matches!(
        storage.update_pattern(&missing),
        Err(MemoryError::ProceduralPatternNotFound(_))
    ));
}

#[test]
fn demote_then_promote_round_trips() {
    let mut storage = Storage::open_in_memory().unwrap();
    let ep = Episode::new(AlynxisId::new(), vec![], vec![]);
    storage.insert_episode(&ep).unwrap();

    demote_to_cold(&mut storage, ep.id).unwrap();
    assert_eq!(
        storage.get_episode(ep.id).unwrap().unwrap().tier,
        MemoryTier::Cold
    );

    promote_from_cold(&mut storage, ep.id).unwrap();
    assert_eq!(
        storage.get_episode(ep.id).unwrap().unwrap().tier,
        MemoryTier::Episodic
    );
}

#[test]
fn demoting_already_cold_episode_is_a_harmless_no_op() {
    let mut storage = Storage::open_in_memory().unwrap();
    let ep = Episode::new(AlynxisId::new(), vec![], vec![]);
    storage.insert_episode(&ep).unwrap();

    demote_to_cold(&mut storage, ep.id).unwrap();
    demote_to_cold(&mut storage, ep.id).unwrap();
    assert_eq!(
        storage.get_episode(ep.id).unwrap().unwrap().tier,
        MemoryTier::Cold
    );
}

#[test]
fn demoting_nonexistent_episode_errors() {
    let mut storage = Storage::open_in_memory().unwrap();
    let result = demote_to_cold(&mut storage, AlynxisId::new());
    assert!(result.is_err());
}

#[test]
fn new_pattern_has_a_version_4_id() {
    let p = ProceduralPattern::new();
    assert_eq!((p.id.as_u128() >> 76) & 0xf, 4);
    assert_eq!((p.id.as_u128() >> 62) & 0x3, 2);
    assert_eq!(p.created_at_unix, p.last_touched_unix);
}

#[test]
fn stored_episode_columns_are_read_back() {
    let id = AlynxisId::from_u128(10);
    let who = AlynxisId::from_u128(11);
    let refs = vec![AlynxisId::from_u128(12).to_string(), AlynxisId::from_u128(13).to_string()];
    let ep = episode_from_columns(&id.to_string(), &who.to_string(), 99, &refs, &vec![], "cold", 5).unwrap();
    assert_eq!(ep.id, id);
    assert_eq!(ep.experiencer, who);
    assert_eq!(ep.node_refs, vec![AlynxisId::from_u128(12), AlynxisId::from_u128(13)]);
    assert!(ep.edge_refs.is_empty());
    assert_eq!(ep.tier, MemoryTier::Cold);
    assert_eq!((ep.timestamp_ms, ep.last_touched_unix), (99, 5));
    let bad_tier = episode_from_columns(&id.to_string(), &who.to_string(), 1, &vec![], &vec![], "warm", 0);
    assert!(matches!(bad_tier, Err(MemoryError::Malformed(m)) if m == "unknown tier \"warm\""));
    let bad_ref = episode_from_columns(&id.to_string(), &who.to_string(), 1, &vec!["x".to_string()], &vec![], "cold", 0);
    assert!(matches!(bad_ref, Err(MemoryError::Malformed(_))));
}

#[test]
fn stored_pattern_columns_are_read_back() {
    let id = AlynxisId::from_u128(20);
    let schema = AlynxisId::from_u128(21);
    let p = pattern_from_columns(&id.to_string(), Some(&schema.to_string()), &vec![], 3, 4).unwrap();
    assert_eq!(p.id, id);
    assert_eq!(p.schema_node_id, Some(schema));
    assert!(p.source_episode_ids.is_empty());
    assert!(pattern_from_columns("nope", None, &vec![], 3, 4).is_err());
}

#[test]
fn ingestion_refers_to_subject_object_and_relation() {
    let (s, o, r) = (AlynxisId::from_u128(1), AlynxisId::from_u128(2), AlynxisId::from_u128(3));
    assert_eq!(alynxis::memory::episode::ingestion_node_refs(s, None, o), vec![s, o]);
    assert_eq!(alynxis::memory::episode::ingestion_node_refs(s, Some(r), o), vec![s, o, r]);
}
