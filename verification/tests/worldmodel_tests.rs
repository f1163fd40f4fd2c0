use alynxis::ids::AlynxisId;
use alynxis::worldmodel::edge::Edge;
use alynxis::worldmodel::error::WorldModelError;
use alynxis::worldmodel::index::{dominant_category, nodes_in_same_category, seed_nodes_for_token};
use alynxis::worldmodel::ingestion::{find_or_create_node_for_label, ingest_relation};
use alynxis::worldmodel::node::Node;
use alynxis::worldmodel::storage::{normalize_label, Storage};
use alynxis::worldmodel::worldmodel::WorldModel;
use std::collections::HashSet;

fn test_storage() -> Storage {
    Storage::open_in_memory().unwrap()
}

#[test]
fn new_edge_has_untyped_relation_by_default_if_none_given() {
    let e = Edge::new(AlynxisId::new(), AlynxisId::new(), None);
    assert!(e.relation.is_none());
    assert_eq!(e.weight, 1);
}

#[test]
fn reinforce_increases_weight_by_one() {
    let mut e = Edge::new(AlynxisId::new(), AlynxisId::new(), None);
    e.reinforce();
    e.reinforce();
    assert_eq!(e.weight, 3);
    let mut top = e;
    top.weight = u64::MAX;
    top.reinforce();
    assert_eq!(top.weight, u64::MAX);
}

#[test]
fn seed_nodes_for_token_finds_exact_label_matches() {
    let mut storage = test_storage();
    let (dog_id, _, _, _) = ingest_relation(&mut storage, "dog", None, "animal").unwrap();

    let seeds = seed_nodes_for_token(&storage, "dog").unwrap();
    assert_eq!(seeds, vec![dog_id]);

    assert!(seed_nodes_for_token(&storage, "nonexistent")
        .unwrap()
        .is_empty());
}

#[test]
fn dominant_category_ignores_untyped_edges() {
    let mut storage = test_storage();
    let (dog_id, _, _, _) = ingest_relation(&mut storage, "dog", None, "leash").unwrap();
    assert!(dominant_category(&storage, dog_id).unwrap().is_none());

    ingest_relation(&mut storage, "dog", Some("is-a"), "animal").unwrap();
    assert!(dominant_category(&storage, dog_id).unwrap().is_some());
}

#[test]
fn dominant_category_prefers_the_strongest_edge() {
    let mut storage = test_storage();
    let (dog_id, is_a, animal, _) = ingest_relation(&mut storage, "dog", Some("is-a"), "animal").unwrap();
    let (_, likes, bone, _) = ingest_relation(&mut storage, "dog", Some("likes"), "bone").unwrap();
    assert_eq!(dominant_category(&storage, dog_id).unwrap(), Some((likes.unwrap(), bone)));
    ingest_relation(&mut storage, "dog", Some("is-a"), "animal").unwrap();
    assert_eq!(dominant_category(&storage, dog_id).unwrap(), Some((is_a.unwrap(), animal)));
}

#[test]
fn nodes_in_same_category_finds_siblings_via_shared_relation_and_target() {
    let mut storage = test_storage();
    let (dog_id, _, animal_id, _) =
        ingest_relation(&mut storage, "dog", Some("is-a"), "animal").unwrap();
    let (cat_id, _, _, _) = ingest_relation(&mut storage, "cat", Some("is-a"), "animal").unwrap();
    ingest_relation(&mut storage, "rock", Some("is-a"), "mineral").unwrap();

    let siblings = nodes_in_same_category(&storage, dog_id).unwrap();
    assert_eq!(siblings, vec![cat_id]);

    let siblings_of_cat = nodes_in_same_category(&storage, cat_id).unwrap();
    assert_eq!(siblings_of_cat, vec![dog_id]);

    assert!(nodes_in_same_category(&storage, animal_id)
        .unwrap()
        .is_empty());
}

#[test]
fn different_relations_to_same_target_are_not_considered_same_category() {
    let mut storage = test_storage();
    let (dog_id, _, _, _) =
        ingest_relation(&mut storage, "dog", Some("is-a"), "animal").unwrap();
    ingest_relation(&mut storage, "collar", Some("associated-with"), "animal").unwrap();

    let siblings = nodes_in_same_category(&storage, dog_id).unwrap();
    assert!(siblings.is_empty());
}

#[test]
fn section_7_regression_new_token_after_known_token_spawns_new_node() {
    let mut storage = test_storage();

    let (dog_id, _, animal_id_1, _) = ingest_relation(&mut storage, "dog", None, "animal").unwrap();
    let (cat_id, _, animal_id_2, _) = ingest_relation(&mut storage, "cat", None, "animal").unwrap();

    assert_ne!(cat_id, dog_id);
    assert_ne!(cat_id, animal_id_1);
    assert_eq!(animal_id_1, animal_id_2);

    let dog_node = storage.get_node(dog_id).unwrap().unwrap();
    let cat_node = storage.get_node(cat_id).unwrap().unwrap();
    assert!(dog_node.has_label("dog"));
    assert!(cat_node.has_label("cat"));
    assert!(!dog_node.has_label("cat"));
}

#[test]
fn repeated_ingestion_reinforces_rather_than_duplicates() {
    let mut storage = test_storage();

    let (_, _, _, edge_id_1) = ingest_relation(&mut storage, "dog", None, "animal").unwrap();
    let (_, _, _, edge_id_2) = ingest_relation(&mut storage, "dog", None, "animal").unwrap();

    assert_eq!(
        edge_id_1, edge_id_2,
        "same triple ingested twice should reinforce the same edge, not create a duplicate"
    );

    let edge = storage.get_edge(edge_id_1).unwrap().unwrap();
    assert!(
        edge.weight > 1,
        "repeated ingestion should have increased edge weight"
    );
}

#[test]
fn named_relation_is_reified_as_its_own_concept_node() {
    let mut storage = test_storage();

    let (subject_id, relation_id, object_id, _) =
        ingest_relation(&mut storage, "dog", Some("is-a"), "animal").unwrap();

    let relation_id = relation_id.expect("named relation should produce Some(relation_id)");
    let relation_node = storage.get_node(relation_id).unwrap().unwrap();
    assert!(relation_node.has_label("is-a"));
    assert_ne!(relation_id, subject_id);
    assert_ne!(relation_id, object_id);
}

#[test]
fn same_relation_label_reused_across_multiple_triples() {
    let mut storage = test_storage();

    let (_, relation_1, _, _) =
        ingest_relation(&mut storage, "dog", Some("is-a"), "animal").unwrap();
    let (_, relation_2, _, _) =
        ingest_relation(&mut storage, "cat", Some("is-a"), "animal").unwrap();

    assert_eq!(
        relation_1, relation_2,
        "the same relation label should resolve to the same reified relation node, not a fresh one each time"
    );
}

#[test]
fn subject_and_object_can_be_the_same_label_reused_consistently() {
    let mut storage = test_storage();
    let (subject_id, _, object_id, _) = ingest_relation(&mut storage, "cat", None, "cat").unwrap();
    assert_eq!(subject_id, object_id);
}

#[test]
fn many_distinct_novel_tokens_all_spawn_distinct_nodes() {
    let mut storage = test_storage();
    let animals = ["dog", "cat", "bird", "fish", "horse", "cow", "sheep", "pig"];
    let mut ids = Vec::new();
    for animal in animals {
        let (subject_id, _, _, _) = ingest_relation(&mut storage, animal, None, "animal").unwrap();
        ids.push(subject_id);
    }
    let unique_count = ids.iter().collect::<HashSet<_>>().len();
    assert_eq!(
        unique_count,
        animals.len(),
        "every distinct novel token should produce a distinct node"
    );
}

#[test]
fn label_matching_is_case_insensitive_so_dog_and_dog_capitalized_are_the_same_node() {
    let mut storage = test_storage();
    let (id1, _, _, _) = ingest_relation(&mut storage, "dog", None, "animal").unwrap();
    let (id2, _, _, _) = ingest_relation(&mut storage, "Dog", None, "animal").unwrap();
    assert_eq!(id1, id2);
}

#[test]
fn find_or_create_reuses_then_creates() {
    let mut storage = test_storage();
    let a = find_or_create_node_for_label(&mut storage, " Owl ").unwrap();
    let b = find_or_create_node_for_label(&mut storage, "owl").unwrap();
    let c = find_or_create_node_for_label(&mut storage, "lark").unwrap();
    assert_eq!(a, b);
    assert_ne!(a, c);
    assert_eq!(storage.node_count().unwrap(), 2);
    let owl = storage.get_node(a).unwrap().unwrap();
    assert_eq!(owl.labels, vec!["owl".to_string()]);
    assert_eq!(normalize_label("  MiXeD Case \t"), "mixed case");
}

#[test]
fn new_nodes_get_unique_ids() {
    let a = Node::new(vec!["dog".into()]);
    let b = Node::new(vec!["dog".into()]);
    assert_ne!(a.id, b.id);
}

#[test]
fn has_label_is_case_insensitive() {
    let n = Node::new(vec!["Dog".into()]);
    assert!(n.has_label("dog"));
    assert!(n.has_label("DOG"));
    assert!(!n.has_label("cat"));
}

#[test]
fn touch_updates_last_touched() {
    let mut n = Node::new(vec!["dog".into()]);
    n.last_touched_unix = 0;
    n.touch();
    assert!(n.last_touched_unix > 0);
}

#[test]
fn get_nonexistent_node_returns_none() {
    let storage = Storage::open_in_memory().unwrap();
    assert!(storage.get_node(AlynxisId::new()).unwrap().is_none());
}

#[test]
fn find_node_ids_by_label_is_case_and_whitespace_insensitive() {
    let mut storage = Storage::open_in_memory().unwrap();
    let node = Node::new(vec!["Dog".into()]);
    storage.insert_node(&node).unwrap();

    assert_eq!(
        storage.find_node_ids_by_label("dog").unwrap(),
        vec![node.id]
    );
    assert_eq!(
        storage.find_node_ids_by_label("DOG").unwrap(),
        vec![node.id]
    );
    assert_eq!(
        storage.find_node_ids_by_label("  dog  ").unwrap(),
        vec![node.id]
    );
    assert!(storage.find_node_ids_by_label("cat").unwrap().is_empty());
}

#[test]
fn update_node_adds_new_labels_without_removing_old_ones() {
    let mut storage = Storage::open_in_memory().unwrap();
    let mut node = Node::new(vec!["dog".into()]);
    storage.insert_node(&node).unwrap();

    node.labels.push("canine".into());
    storage.update_node(&node).unwrap();

    let loaded = storage.get_node(node.id).unwrap().unwrap();
    assert!(loaded.has_label("dog"));
    assert!(loaded.has_label("canine"));
}

#[test]
fn stored_labels_are_normalized_and_not_repeated() {
    let mut storage = Storage::open_in_memory().unwrap();
    let node = Node::new(vec!["Dog".into(), " dog ".into(), "Canine".into()]);
    storage.insert_node(&node).unwrap();
    let loaded = storage.get_node(node.id).unwrap().unwrap();
    assert_eq!(loaded.labels, vec!["dog".to_string(), "canine".to_string()]);
    assert!(matches!(storage.insert_node(&node), Err(WorldModelError::Constraint(_))));
}

#[test]
fn update_nonexistent_node_errors() {
    let mut storage = Storage::open_in_memory().unwrap();
    let node = Node::new(vec!["ghost".into()]);
    let result = storage.update_node(&node);
    assert!(matches!(result, Err(WorldModelError::NodeNotFound(_))));
}

#[test]
fn insert_and_get_edge_round_trips() {
    let mut storage = Storage::open_in_memory().unwrap();
    let a = Node::new(vec!["dog".into()]);
    let b = Node::new(vec!["animal".into()]);
    storage.insert_node(&a).unwrap();
    storage.insert_node(&b).unwrap();

    let edge = Edge::new(a.id, b.id, None);
    storage.insert_edge(&edge).unwrap();

    let loaded = storage.get_edge(edge.id).unwrap().unwrap();
    assert_eq!(loaded.source, a.id);
    assert_eq!(loaded.target, b.id);
    assert_eq!(loaded.relation, None);
}

#[test]
fn edges_need_stored_endpoints() {
    let mut storage = Storage::open_in_memory().unwrap();
    let a = Node::new(vec!["dog".into()]);
    storage.insert_node(&a).unwrap();
    let dangling = Edge::new(a.id, AlynxisId::new(), None);
    assert!(matches!(storage.insert_edge(&dangling), Err(WorldModelError::Constraint(_))));
    assert_eq!(storage.edge_count().unwrap(), 0);
    let missing = Edge::new(a.id, a.id, None);
    assert!(matches!(storage.update_edge(&missing), Err(WorldModelError::EdgeNotFound(_))));
}

#[test]
fn find_edges_by_source_target_and_relation() {
    let mut storage = Storage::open_in_memory().unwrap();
    let dog = Node::new(vec!["dog".into()]);
    let cat = Node::new(vec!["cat".into()]);
    let animal = Node::new(vec!["animal".into()]);
    let is_a = Node::new(vec!["is-a".into()]);
    for n in [&dog, &cat, &animal, &is_a] {
        storage.insert_node(n).unwrap();
    }

    let e1 = Edge::new(dog.id, animal.id, Some(is_a.id));
    let e2 = Edge::new(cat.id, animal.id, Some(is_a.id));
    storage.insert_edge(&e1).unwrap();
    storage.insert_edge(&e2).unwrap();

    assert_eq!(storage.find_edges_by_source(dog.id).unwrap().len(), 1);
    assert_eq!(storage.find_edges_by_target(animal.id).unwrap().len(), 2);
    assert_eq!(storage.find_edges_by_relation(is_a.id).unwrap().len(), 2);
}

#[test]
fn find_edge_by_triple_distinguishes_none_and_some_relation() {
    let mut storage = Storage::open_in_memory().unwrap();
    let a = Node::new(vec!["a".into()]);
    let b = Node::new(vec!["b".into()]);
    let rel = Node::new(vec!["rel".into()]);
    storage.insert_node(&a).unwrap();
    storage.insert_node(&b).unwrap();
    storage.insert_node(&rel).unwrap();

    let untyped = Edge::new(a.id, b.id, None);
    storage.insert_edge(&untyped).unwrap();

    assert!(storage
        .find_edge_by_triple(a.id, b.id, None)
        .unwrap()
        .is_some());
    assert!(storage
        .find_edge_by_triple(a.id, b.id, Some(rel.id))
        .unwrap()
        .is_none());

    let typed = Edge::new(a.id, b.id, Some(rel.id));
    storage.insert_edge(&typed).unwrap();
    assert!(storage
        .find_edge_by_triple(a.id, b.id, Some(rel.id))
        .unwrap()
        .is_some());
}

#[test]
fn external_identity_lookup_round_trips() {
    let mut storage = Storage::open_in_memory().unwrap();
    let mut node = Node::new(Vec::new());
    let identity = AlynxisId::new();
    node.external_identity = Some(identity);
    storage.insert_node(&node).unwrap();

    assert_eq!(
        storage.find_node_id_by_external_identity(identity).unwrap(),
        Some(node.id)
    );
    assert_eq!(
        storage
            .find_node_id_by_external_identity(AlynxisId::new())
            .unwrap(),
        None
    );
}

#[test]
fn self_node_bootstraps_on_open_and_is_idempotent() {
    let mut wm = WorldModel::open_in_memory().unwrap();
    let id = wm.self_node_id();
    assert!(wm.get_node(id).unwrap().is_some());

    wm.bootstrap_self_node().unwrap();
    assert_eq!(wm.node_count().unwrap(), 1);
}

#[test]
fn self_node_id_is_deterministic_across_separate_worldmodels() {
    let wm1 = WorldModel::open_in_memory().unwrap();
    let wm2 = WorldModel::open_in_memory().unwrap();
    assert_eq!(wm1.self_node_id(), wm2.self_node_id());
}

#[test]
fn self_node_id_is_the_reserved_v5_uuid() {
    let wm = WorldModel::open_in_memory().unwrap();
    let expected = uuid::Uuid::new_v5(&uuid::Uuid::from_u128(1), b"alynxis-self-concept-node");
    assert_eq!(wm.self_node_id().as_uuid(), expected);
}

#[test]
fn bind_admin_identity_is_idempotent() {
    let mut wm = WorldModel::open_in_memory().unwrap();
    let admin_id = AlynxisId::new();

    let node_id_1 = wm.bind_admin_identity(admin_id).unwrap();
    let node_id_2 = wm.bind_admin_identity(admin_id).unwrap();
    assert_eq!(node_id_1, node_id_2);

    let node = wm.get_node(node_id_1).unwrap().unwrap();
    assert_eq!(node.external_identity, Some(admin_id));
}

#[test]
fn bind_admin_identity_distinguishes_different_identities() {
    let mut wm = WorldModel::open_in_memory().unwrap();
    let admin_a = AlynxisId::new();
    let admin_b = AlynxisId::new();

    let node_a = wm.bind_admin_identity(admin_a).unwrap();
    let node_b = wm.bind_admin_identity(admin_b).unwrap();
    assert_ne!(node_a, node_b);
}

#[test]
fn end_to_end_ingest_and_query_through_public_api() {
    let mut wm = WorldModel::open_in_memory().unwrap();
    let (dog_id, _, animal_id, _) = wm.ingest_relation("dog", Some("is-a"), "animal").unwrap();
    let (cat_id, _, _, _) = wm.ingest_relation("cat", Some("is-a"), "animal").unwrap();

    assert_eq!(wm.seed_nodes_for_token("dog").unwrap(), vec![dog_id]);
    assert_eq!(wm.nodes_in_same_category(dog_id).unwrap(), vec![cat_id]);
    assert!(wm.get_node(animal_id).unwrap().is_some());

    // Self-node (1) + dog + is-a + animal + cat = 5 nodes.
    assert_eq!(wm.node_count().unwrap(), 5);
}

#[test]
fn insert_and_get_node_round_trips() {
    let mut storage = Storage::open_in_memory().unwrap();
    let node = Node::new(vec!["dog".into(), "canine".into()]);
    storage.insert_node(&node).unwrap();

    let loaded = storage.get_node(node.id).unwrap().unwrap();
    assert_eq!(loaded.id, node.id);
    assert!(loaded.has_label("dog"));
    assert!(loaded.has_label("canine"));
    assert_eq!(loaded.external_identity, node.external_identity);
    assert_eq!(loaded.created_at_unix, node.created_at_unix);
    assert_eq!(loaded.last_touched_unix, node.last_touched_unix);
}

#[test]
fn stored_edge_columns_are_read_back() {
    let id = AlynxisId::from_u128(1);
    let source = AlynxisId::from_u128(2);
    let target = AlynxisId::from_u128(3);
    let e = Edge::from_columns(
        &id.to_string(),
        &source.to_string(),
        &target.to_string(),
        None,
        4,
        5,
        6,
    )
    .unwrap();
    assert_eq!(e.id, id);
    assert_eq!(e.source, source);
    assert_eq!(e.target, target);
    assert_eq!(e.relation, None);
    assert_eq!((e.weight, e.created_at_unix, e.last_touched_unix), (4, 5, 6));
    let bad = Edge::from_columns(&id.to_string(), "not-a-uuid", &target.to_string(), None, 1, 0, 0);
    match bad {
        Err(WorldModelError::Ingestion(m)) => assert!(m.starts_with("malformed stored UUID \"not-a-uuid\": ")),
        other => panic!("unexpected {other:?}"),
    }
}

#[test]
fn stored_node_columns_are_read_back() {
    let id = AlynxisId::from_u128(7);
    let who = AlynxisId::from_u128(8);
    let n = Node::from_columns(&id.to_string(), vec!["cat".into()], Some(&who.to_string()), 1, 2).unwrap();
    assert_eq!(n.id, id);
    assert_eq!(n.labels, vec!["cat".to_string()]);
    assert_eq!(n.external_identity, Some(who));
    assert!(Node::from_columns("zz", vec![], None, 1, 2).is_err());
}

#[test]
fn second_ingestion_of_a_known_statement_succeeds() {
    let mut wm = WorldModel::open_in_memory().unwrap();
    let first = wm.ingest_relation("dog", Some("is-a"), "animal").unwrap();
    let second = wm.ingest_relation("Dog ", Some("IS-A"), " animal").unwrap();
    assert_eq!(first, second);
    assert_eq!(wm.get_edge(first.3).unwrap().unwrap().weight, 2);
}
