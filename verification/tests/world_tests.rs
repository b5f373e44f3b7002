use shoe_crossing::entity::{Entities, EntityId};
use shoe_crossing::component::ComponentStore;
use shoe_crossing::error::EcsError;
use shoe_crossing::world::{Query, World};

const A: usize = 0;
const B: usize = 1;

#[test]
fn spawn_gives_fresh_alive_ids() {
    let mut world: World<i64> = World::new();
    let first = world.spawn();
    let second = world.spawn();
    assert_ne!(first, second);
    assert!(world.is_alive(first));
    assert!(world.is_alive(second));
    assert_eq!(first, EntityId { index: 0, generation: 0 });
    assert_eq!(second, EntityId { index: 1, generation: 0 });
}

#[test]
fn despawn_invalidates_and_drops_components() {
    let mut world: World<i64> = World::new();
    let e = world.spawn();
    assert_eq!(world.insert(e, A, 7), Ok(()));
    assert_eq!(world.despawn(e), Ok(()));
    assert!(!world.is_alive(e));
    assert!(!world.has(e, A));
    assert_eq!(world.get(e, A), Err(EcsError::StaleEntity));
}

#[test]
fn stale_entity_is_an_error_everywhere() {
    let mut world: World<i64> = World::new();
    let never = EntityId { index: 3, generation: 0 };
    assert_eq!(world.despawn(never), Err(EcsError::StaleEntity));
    assert_eq!(world.insert(never, A, 1), Err(EcsError::StaleEntity));
    assert_eq!(world.remove(never, A), Err(EcsError::StaleEntity));
    assert_eq!(world.get(never, A), Err(EcsError::StaleEntity));
    assert!(world.get_mut(never, A).is_err());
    assert_eq!(world.defer_despawn(never), Err(EcsError::StaleEntity));
    let e = world.spawn();
    assert_eq!(world.despawn(e), Ok(()));
    assert_eq!(world.despawn(e), Err(EcsError::StaleEntity));
}

#[test]
fn a_reused_row_gets_the_next_generation() {
    let mut world: World<i64> = World::new();
    let old = world.spawn();
    world.insert(old, A, 5).unwrap();
    world.despawn(old).unwrap();
    let new = world.spawn();
    assert_eq!(new, EntityId { index: 0, generation: 1 });
    assert!(!world.is_alive(old));
    assert!(world.is_alive(new));
    assert_eq!(world.get(new, A), Ok(None));
    assert_eq!(world.insert(old, A, 9), Err(EcsError::StaleEntity));
}

#[test]
fn insert_overwrites_and_kinds_are_independent() {
    let mut world: World<i64> = World::new();
    let e = world.spawn();
    let f = world.spawn();
    world.insert(e, A, 1).unwrap();
    world.insert(e, B, 2).unwrap();
    world.insert(f, A, 3).unwrap();
    world.insert(e, A, 10).unwrap();
    assert_eq!(world.get(e, A), Ok(Some(&10)));
    assert_eq!(world.get(e, B), Ok(Some(&2)));
    assert_eq!(world.get(f, A), Ok(Some(&3)));
    assert_eq!(world.remove(e, A), Ok(Some(10)));
    assert_eq!(world.remove(e, A), Ok(None));
    assert_eq!(world.get(e, B), Ok(Some(&2)));
    assert_eq!(world.get(f, A), Ok(Some(&3)));
}

#[test]
fn a_kind_never_stored_reads_as_absent() {
    let mut world: World<i64> = World::new();
    let e = world.spawn();
    assert_eq!(world.get(e, 40), Ok(None));
    assert!(!world.has(e, 40));
    assert_eq!(world.remove(e, 40), Ok(None));
}

#[test]
fn get_mut_writes_through() {
    let mut world: World<i64> = World::new();
    let e = world.spawn();
    world.insert(e, A, 1).unwrap();
    world.insert(e, B, 2).unwrap();
    match world.get_mut(e, A) {
        Ok(Some(value)) => *value += 41,
        _ => panic!("component expected"),
    }
    assert_eq!(world.get(e, A), Ok(Some(&42)));
    assert_eq!(world.get(e, B), Ok(Some(&2)));
    assert!(matches!(world.get_mut(e, 9), Ok(None)));
}

#[test]
fn two_components_are_borrowed_jointly() {
    let mut world: World<i64> = World::new();
    let e = world.spawn();
    let f = world.spawn();
    world.insert(e, A, 1).unwrap();
    world.insert(e, B, 2).unwrap();
    world.insert(f, A, 3).unwrap();
    match world.get_pair_mut(e, B, A) {
        Ok(Some((b, a))) => {
            *b += 10;
            *a += 100;
        },
        _ => panic!("both components expected"),
    }
    assert_eq!(world.get(e, A), Ok(Some(&101)));
    assert_eq!(world.get(e, B), Ok(Some(&12)));
    assert_eq!(world.get(f, A), Ok(Some(&3)));
    assert!(matches!(world.get_pair_mut(e, A, A), Ok(None)));
    assert!(matches!(world.get_pair_mut(e, A, 9), Ok(None)));
    assert!(matches!(world.get_pair_mut(f, A, B), Ok(None)));
    world.despawn(e).unwrap();
    assert!(matches!(world.get_pair_mut(e, A, B), Err(EcsError::StaleEntity)));
}

#[test]
fn query_rejects_overlapping_sets() {
    assert!(Query::new(vec![A, B], vec![B]).is_none());
    assert!(Query::new(vec![A], vec![B]).is_some());
    assert!(Query::new(vec![], vec![]).is_some());
}

#[test]
fn query_selects_by_presence_and_absence() {
    let mut world: World<i64> = World::new();
    let only_a = world.spawn();
    let both = world.spawn();
    let only_b = world.spawn();
    let none = world.spawn();
    world.insert(only_a, A, 1).unwrap();
    world.insert(both, A, 2).unwrap();
    world.insert(both, B, 3).unwrap();
    world.insert(only_b, B, 4).unwrap();
    let with_a = Query::new(vec![A], vec![]).unwrap();
    let a_not_b = Query::new(vec![A], vec![B]).unwrap();
    let all = Query::new(vec![], vec![]).unwrap();
    assert_eq!(world.query(&with_a), vec![only_a, both]);
    assert_eq!(world.query(&a_not_b), vec![only_a]);
    assert_eq!(world.query(&all), vec![only_a, both, only_b, none]);
}

#[test]
fn removing_the_excluded_kind_makes_the_entity_match() {
    let mut world: World<i64> = World::new();
    let e = world.spawn();
    world.insert(e, A, 1).unwrap();
    world.insert(e, B, 2).unwrap();
    let q = Query::new(vec![A], vec![B]).unwrap();
    assert_eq!(world.query(&q), Vec::<EntityId>::new());
    world.remove(e, B).unwrap();
    assert_eq!(world.query(&q), vec![e]);
}

#[test]
fn no_query_returns_a_despawned_entity() {
    let mut world: World<i64> = World::new();
    let all = Query::new(vec![], vec![]).unwrap();
    let with_a = Query::new(vec![A], vec![]).unwrap();
    let first = world.spawn();
    let second = world.spawn();
    world.insert(first, A, 1).unwrap();
    world.insert(second, A, 2).unwrap();
    world.despawn(first).unwrap();
    assert_eq!(world.query(&all), vec![second]);
    let third = world.spawn();
    world.insert(third, A, 3).unwrap();
    let found = world.query(&with_a);
    assert_eq!(found, vec![third, second]);
    assert!(!found.contains(&first));
    world.despawn(third).unwrap();
    world.despawn(second).unwrap();
    assert_eq!(world.query(&all), Vec::<EntityId>::new());
}

#[test]
fn a_list_handed_out_is_not_updated() {
    let mut world: World<i64> = World::new();
    let e = world.spawn();
    world.insert(e, A, 1).unwrap();
    let q = Query::new(vec![A], vec![]).unwrap();
    let before = world.query(&q);
    let f = world.spawn();
    world.insert(f, A, 2).unwrap();
    assert_eq!(before, vec![e]);
    assert_eq!(world.query(&q), vec![e, f]);
}

#[test]
fn deferred_despawns_wait_for_the_apply_point() {
    let mut world: World<i64> = World::new();
    let e = world.spawn();
    let f = world.spawn();
    world.insert(e, A, 1).unwrap();
    assert_eq!(world.defer_despawn(e), Ok(()));
    assert_eq!(world.defer_despawn(e), Ok(()));
    assert!(world.is_alive(e));
    assert_eq!(world.get(e, A), Ok(Some(&1)));
    world.apply_deferred();
    assert!(!world.is_alive(e));
    assert!(world.is_alive(f));
    world.apply_deferred();
    assert!(world.is_alive(f));
}

#[test]
fn a_deferred_despawn_of_an_entity_despawned_meanwhile_is_passed_over() {
    let mut world: World<i64> = World::new();
    let e = world.spawn();
    world.defer_despawn(e).unwrap();
    world.despawn(e).unwrap();
    let again = world.spawn();
    assert_eq!(again.index, e.index);
    world.apply_deferred();
    assert!(world.is_alive(again));
}

#[test]
fn defer_matching_dooms_exactly_the_matches() {
    let mut world: World<i64> = World::new();
    let e = world.spawn();
    let f = world.spawn();
    let g = world.spawn();
    world.insert(e, A, 1).unwrap();
    world.insert(g, A, 1).unwrap();
    world.insert(g, B, 1).unwrap();
    let q = Query::new(vec![A], vec![]).unwrap();
    assert_eq!(world.defer_matching(&q), vec![e, g]);
    assert!(world.is_alive(e) && world.is_alive(g));
    world.apply_deferred();
    assert!(!world.is_alive(e));
    assert!(world.is_alive(f));
    assert!(!world.is_alive(g));
}

#[test]
fn registry_tracks_rows_and_occupants() {
    let mut entities = Entities::new();
    assert_eq!(entities.len(), 0);
    let a = entities.spawn();
    let b = entities.spawn();
    assert_eq!(entities.len(), 2);
    assert_eq!(entities.entity_at(0), Some(a));
    assert_eq!(entities.despawn(a), Ok(()));
    assert_eq!(entities.entity_at(0), None);
    assert_eq!(entities.entity_at(1), Some(b));
    assert_eq!(entities.entity_at(2), None);
    assert_eq!(entities.despawn(a), Err(EcsError::StaleEntity));
    let c = entities.spawn();
    assert_eq!(c, EntityId { index: 0, generation: 1 });
    assert!(entities.is_alive(c));
    assert!(!entities.is_alive(a));
    assert_eq!(entities.len(), 2);
}

#[test]
fn component_store_cells_are_independent() {
    let mut store: ComponentStore<&str> = ComponentStore::new();
    assert_eq!(store.get(0, 0), None);
    assert_eq!(store.insert(2, 1, "x"), None);
    assert_eq!(store.insert(2, 1, "y"), Some("x"));
    assert_eq!(store.insert(0, 3, "z"), None);
    assert!(store.contains(2, 1));
    assert!(!store.contains(1, 1));
    assert!(!store.contains(2, 0));
    assert_eq!(store.get(2, 1), Some(&"y"));
    if let Some(cell) = store.get_mut(0, 3) {
        *cell = "w";
    }
    assert_eq!(store.get(0, 3), Some(&"w"));
    assert!(store.get_mut(7, 7).is_none());
    store.insert(0, 1, "v");
    if let Some((low, high)) = store.get_pair_mut(0, 1, 3) {
        std::mem::swap(low, high);
    }
    assert_eq!(store.get(0, 1), Some(&"w"));
    assert_eq!(store.get(0, 3), Some(&"v"));
    assert!(store.get_pair_mut(0, 3, 3).is_none());
    assert!(store.get_pair_mut(0, 3, 2).is_none());
    assert_eq!(store.remove(0, 1), Some("w"));
    assert_eq!(store.insert(0, 3, "w"), Some("v"));
    assert_eq!(store.remove(2, 1), Some("y"));
    assert_eq!(store.remove(2, 1), None);
    store.insert(0, 0, "a");
    store.clear_row(0);
    assert_eq!(store.get(0, 0), None);
    assert_eq!(store.get(0, 3), None);
}

#[test]
fn only_start_up_errors_are_fatal() {
    assert!(EcsError::SchedulingError.is_fatal());
    assert!(EcsError::QueryConflict.is_fatal());
    assert!(!EcsError::StaleEntity.is_fatal());
    assert!(!EcsError::MissingResource.is_fatal());
}
