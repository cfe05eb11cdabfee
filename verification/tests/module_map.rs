use lint_pipeline::module_map::{ModuleMap, ModuleRecord};
use std::sync::Arc;

fn record_of(requests: &[&str]) -> Arc<ModuleRecord> {
    Arc::new(ModuleRecord::new(requests.iter().map(|r| r.to_string()).collect()))
}

#[test]
fn a_new_cache_is_empty() {
    let cache = ModuleMap::new();
    assert!(!cache.contains_key("a.js"));
    assert!(cache.get("a.js").is_none());
}

#[test]
fn an_inserted_record_is_found_under_its_path_only() {
    let mut cache = ModuleMap::new();
    assert!(cache.insert("a.js", record_of(&["./b", "./c"])));
    assert!(cache.contains_key("a.js"));
    assert!(!cache.contains_key("b.js"));
    assert!(!cache.contains_key("a.j"));
    let found = cache.get("a.js").unwrap();
    assert_eq!(found.module_requests, vec!["./b".to_string(), "./c".to_string()]);
    assert!(cache.get("b.js").is_none());
}

#[test]
fn the_first_record_of_a_path_stays() {
    let mut cache = ModuleMap::new();
    assert!(cache.insert("a.js", record_of(&["./first"])));
    assert!(!cache.insert("a.js", record_of(&["./second"])));
    let found = cache.get("a.js").unwrap();
    assert_eq!(found.module_requests, vec!["./first".to_string()]);
}

#[test]
fn records_of_other_paths_do_not_change() {
    let mut cache = ModuleMap::new();
    assert!(cache.insert("a.js", record_of(&["./x"])));
    assert!(cache.insert("b.js", record_of(&[])));
    assert!(cache.insert("c.js", record_of(&["./y", "./z"])));
    assert_eq!(cache.get("a.js").unwrap().module_requests, vec!["./x".to_string()]);
    assert!(cache.get("b.js").unwrap().module_requests.is_empty());
    assert_eq!(
        cache.get("c.js").unwrap().module_requests,
        vec!["./y".to_string(), "./z".to_string()]
    );
}

#[test]
fn querying_twice_gives_the_same_record() {
    let mut cache = ModuleMap::new();
    assert!(cache.insert("a.js", record_of(&["./x"])));
    let first = cache.get("a.js").unwrap();
    let second = cache.get("a.js").unwrap();
    assert!(Arc::ptr_eq(&first, &second));
}
