use mod_catalog::catalog::PackageMap;
use mod_catalog::package::PackageListing;
use serde_json::Value;

fn listing(uuid: &str, full_name: &str) -> PackageListing {
    PackageListing::new(uuid.to_string(), full_name.to_string(), Value::Null)
}

fn map_of(items: &[(&str, &str)]) -> PackageMap {
    let mut map = PackageMap::new();
    for (uuid, full_name) in items {
        map.insert(listing(uuid, full_name));
    }
    map
}

fn contents(map: &PackageMap) -> Vec<(String, String)> {
    let mut out = Vec::new();
    let mut i = 0;
    while let Some(record) = map.get_index(i) {
        out.push((record.uuid().to_string(), record.full_name().to_string()));
        i += 1;
    }
    assert_eq!(i, map.len());
    out
}

fn pairs(items: &[(&str, &str)]) -> Vec<(String, String)> {
    items.iter().map(|(a, b)| (a.to_string(), b.to_string())).collect()
}

#[test]
fn a_new_map_is_empty() {
    let map = PackageMap::new();
    assert_eq!(map.len(), 0);
    assert!(map.is_empty());
    assert!(map.get("a").is_none());
    assert!(map.get_index(0).is_none());
    assert!(!map.contains("a"));
}

#[test]
fn records_keep_the_order_of_insertion() {
    let map = map_of(&[("c", "3"), ("a", "1"), ("b", "2")]);
    assert_eq!(map.len(), 3);
    assert!(!map.is_empty());
    assert_eq!(contents(&map), pairs(&[("c", "3"), ("a", "1"), ("b", "2")]));
}

#[test]
fn a_known_identifier_keeps_its_place_and_gets_the_new_record() {
    let mut map = map_of(&[("a", "old"), ("b", "2"), ("c", "3")]);
    map.insert(listing("a", "new"));
    assert_eq!(map.len(), 3);
    assert_eq!(contents(&map), pairs(&[("a", "new"), ("b", "2"), ("c", "3")]));
    assert_eq!(map.get("a").unwrap().full_name(), "new");
}

#[test]
fn records_are_found_by_identifier_and_by_place() {
    let map = map_of(&[("a", "1"), ("b", "2")]);
    assert_eq!(map.get("b").unwrap().full_name(), "2");
    assert!(map.get("B").is_none());
    assert!(map.contains("a"));
    assert!(!map.contains(""));
    assert_eq!(map.get_index(1).unwrap().uuid(), "b");
    assert!(map.get_index(2).is_none());
}

#[test]
fn the_later_source_wins_and_the_first_place_stays() {
    let mut primary = map_of(&[("a", "a-primary"), ("b", "b-primary"), ("c", "c-primary")]);
    let extra = map_of(&[("d", "d-extra"), ("b", "b-extra")]);
    primary.extend(extra);
    assert_eq!(
        contents(&primary),
        pairs(&[("a", "a-primary"), ("b", "b-extra"), ("c", "c-primary"), ("d", "d-extra")])
    );
}

#[test]
fn extending_an_empty_map_gives_the_other_map() {
    let mut map = PackageMap::new();
    map.extend(map_of(&[("x", "1"), ("y", "2")]));
    assert_eq!(contents(&map), pairs(&[("x", "1"), ("y", "2")]));
    map.extend(PackageMap::new());
    assert_eq!(contents(&map), pairs(&[("x", "1"), ("y", "2")]));
}

#[test]
fn the_map_itself_can_be_read() {
    let map = map_of(&[("a", "1"), ("b", "2")]);
    let keys: Vec<&String> = map.as_index_map().keys().collect();
    assert_eq!(keys, vec!["a", "b"]);
    assert_eq!(map.as_index_map().get_index_of("b"), Some(1));
}
