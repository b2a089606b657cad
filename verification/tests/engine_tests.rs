use cms_loader::engine::LoaderEngine;

#[test]
fn first_run_always_loads() {
    let engine = LoaderEngine::new();
    assert!(engine.should_load("pos_iqies", "abc", 1));
}

#[test]
fn same_version_same_fingerprint_skips() {
    let mut engine = LoaderEngine::new();
    engine.update_status("pos_iqies", "abc", 1);
    assert!(!engine.should_load("pos_iqies", "abc", 1));
}

#[test]
fn same_version_changed_fingerprint_loads() {
    let mut engine = LoaderEngine::new();
    engine.update_status("pos_iqies", "abc", 1);
    assert!(engine.should_load("pos_iqies", "def", 1));
}

#[test]
fn version_bump_loads_even_on_same_fingerprint() {
    let mut engine = LoaderEngine::new();
    engine.update_status("pos_iqies", "abc", 1);
    assert!(engine.should_load("pos_iqies", "abc", 2));
}

#[test]
fn older_version_with_same_fingerprint_skips() {
    let mut engine = LoaderEngine::new();
    engine.update_status("pos_iqies", "abc", 3);
    assert!(!engine.should_load("pos_iqies", "abc", 2));
}

#[test]
fn states_are_tracked_per_loader_key() {
    let mut engine = LoaderEngine::new();
    engine.update_status("one", "h1", 1);
    engine.update_status("two", "h2", 1);
    assert!(!engine.should_load("one", "h1", 1));
    assert!(!engine.should_load("two", "h2", 1));
    assert!(engine.should_load("two", "h1", 1));
    assert!(engine.should_load("three", "h1", 1));
}

#[test]
fn update_status_overwrites_prior_record() {
    let mut engine = LoaderEngine::new();
    engine.update_status("k", "h1", 1);
    engine.update_status("k", "h2", 2);
    assert!(!engine.should_load("k", "h2", 2));
    assert!(engine.should_load("k", "h1", 2));
}

#[test]
fn scan_seeds_the_cache_from_stored_rows() {
    let mut engine = LoaderEngine::new();
    engine.scan(vec![
        ("one".to_string(), 1, "h1".to_string()),
        ("two".to_string(), 4, "h2".to_string()),
    ]);
    assert!(!engine.should_load("one", "h1", 1));
    assert!(!engine.should_load("two", "h2", 4));
    assert!(engine.should_load("two", "h2", 5));
}

#[test]
fn duplicate_registration_is_reported() {
    let mut engine = LoaderEngine::new();
    assert!(!engine.register("pos_iqies".to_string()));
    assert!(engine.register("pos_iqies".to_string()));
    assert_eq!(engine.run_order(), vec!["pos_iqies".to_string()]);
}

#[test]
fn run_order_is_registration_order() {
    let mut engine = LoaderEngine::new();
    engine.register("b".to_string());
    engine.register("a".to_string());
    engine.register("c".to_string());
    assert_eq!(
        engine.run_order(),
        vec!["b".to_string(), "a".to_string(), "c".to_string()]
    );
}

#[test]
fn scan_lets_later_rows_win_on_duplicate_keys() {
    let mut engine = LoaderEngine::new();
    engine.scan(vec![
        ("k".to_string(), 1, "h1".to_string()),
        ("k".to_string(), 2, "h2".to_string()),
    ]);
    assert!(!engine.should_load("k", "h2", 2));
    assert!(engine.should_load("k", "h1", 2));
}
