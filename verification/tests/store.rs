use mod_catalog::catalog::PackageMap;
use mod_catalog::package::PackageListing;
use mod_catalog::store::{
    read_and_insert_cache, wait_for_fetch, FetchOutcome, Readiness, Thunderstore, WriteMode,
    READY_POLL_SECS,
};
use serde_json::Value;

fn listing(uuid: &str, full_name: &str) -> PackageListing {
    PackageListing::new(uuid.to_string(), full_name.to_string(), Value::Null)
}

fn map_of(items: &[(&str, &str)]) -> PackageMap {
    let mut map = PackageMap::new();
    for (uuid, full_name) in items {
        map.insert(listing(uuid, full_name));
    }
    map
}

fn names(store: &Thunderstore) -> Vec<String> {
    store.packages().as_index_map().values().map(|p| p.full_name().to_string()).collect()
}

#[test]
fn a_new_store_is_empty_and_idle() {
    let store = Thunderstore::new();
    assert!(store.packages().is_empty());
    assert!(!store.is_fetching());
    assert!(!store.packages_fetched());
}

#[test]
fn only_one_fetch_is_granted_at_a_time() {
    let mut store = Thunderstore::new();
    assert!(store.try_start_fetch());
    assert!(store.is_fetching());
    assert!(!store.try_start_fetch());
    assert!(store.is_fetching());
    store.finish_fetch(FetchOutcome::Failed, WriteMode::Replace);
    assert!(!store.is_fetching());
    assert!(store.try_start_fetch());
}

#[test]
fn a_failed_fetch_lowers_the_flag_and_changes_nothing_else() {
    let mut store = Thunderstore::new();
    read_and_insert_cache(&mut store, Some(vec![listing("a", "cached")]));
    assert!(store.try_start_fetch());
    store.finish_fetch(FetchOutcome::Failed, WriteMode::Replace);
    assert!(!store.is_fetching());
    assert!(!store.packages_fetched());
    assert_eq!(names(&store), vec!["cached"]);
}

#[test]
fn a_fetch_that_succeeded_lowers_the_flag_and_marks_the_store() {
    let mut store = Thunderstore::new();
    assert!(store.try_start_fetch());
    store.finish_fetch(FetchOutcome::Fetched(map_of(&[("a", "1")])), WriteMode::Replace);
    assert!(!store.is_fetching());
    assert!(store.packages_fetched());
    assert_eq!(names(&store), vec!["1"]);
    assert!(store.try_start_fetch());
    store.finish_fetch(FetchOutcome::Failed, WriteMode::Replace);
    assert!(store.packages_fetched());
    assert_eq!(names(&store), vec!["1"]);
}

#[test]
fn merging_keeps_what_was_not_fetched() {
    let mut store = Thunderstore::new();
    read_and_insert_cache(&mut store, Some(vec![listing("a", "a-cached"), listing("b", "b-cached")]));
    store.try_start_fetch();
    store.finish_fetch(
        FetchOutcome::Fetched(map_of(&[("c", "c-fetched"), ("a", "a-fetched")])),
        WriteMode::Merge,
    );
    assert_eq!(names(&store), vec!["a-fetched", "b-cached", "c-fetched"]);
}

#[test]
fn replacing_drops_what_was_not_fetched() {
    let mut store = Thunderstore::new();
    read_and_insert_cache(&mut store, Some(vec![listing("a", "a-cached"), listing("b", "b-cached")]));
    store.try_start_fetch();
    store.finish_fetch(
        FetchOutcome::Fetched(map_of(&[("c", "c-fetched"), ("a", "a-fetched")])),
        WriteMode::Replace,
    );
    assert_eq!(names(&store), vec!["c-fetched", "a-fetched"]);
}

#[test]
fn the_cache_fills_the_store_and_is_no_fetch() {
    let mut store = Thunderstore::new();
    read_and_insert_cache(&mut store, None);
    assert!(store.packages().is_empty());
    read_and_insert_cache(
        &mut store,
        Some(vec![listing("a", "1"), listing("b", "2"), listing("a", "3")]),
    );
    assert_eq!(names(&store), vec!["3", "2"]);
    assert!(!store.packages_fetched());
    assert!(!store.is_fetching());
    read_and_insert_cache(&mut store, Some(Vec::new()));
    assert_eq!(names(&store), vec!["3", "2"]);
}

#[test]
fn the_gate_opens_with_the_first_fetch_that_succeeds() {
    let mut store = Thunderstore::new();
    assert_eq!(READY_POLL_SECS, 1);
    assert_eq!(wait_for_fetch(&store), Readiness::Wait(1));
    read_and_insert_cache(&mut store, Some(vec![listing("a", "1")]));
    assert_eq!(wait_for_fetch(&store), Readiness::Wait(1));
    store.try_start_fetch();
    assert_eq!(wait_for_fetch(&store), Readiness::Wait(1));
    store.finish_fetch(FetchOutcome::Failed, WriteMode::Merge);
    assert_eq!(wait_for_fetch(&store), Readiness::Wait(1));
    store.try_start_fetch();
    store.finish_fetch(FetchOutcome::Fetched(PackageMap::new()), WriteMode::Merge);
    assert_eq!(wait_for_fetch(&store), Readiness::Ready);
    store.try_start_fetch();
    assert_eq!(wait_for_fetch(&store), Readiness::Ready);
    store.finish_fetch(FetchOutcome::Failed, WriteMode::Replace);
    assert_eq!(wait_for_fetch(&store), Readiness::Ready);
}
