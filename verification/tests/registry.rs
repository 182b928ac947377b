use dockerust::StartRegistry;

#[test]
fn registry_answers_registered_start() {
    let mut registry = StartRegistry::new();
    assert_eq!(registry.started_at("abc"), None);
    registry.register("abc", 100);
    registry.register("def", 250);
    assert_eq!(registry.started_at("abc"), Some(100));
    assert_eq!(registry.started_at("def"), Some(250));
    assert_eq!(registry.started_at("ab"), None);
}

#[test]
fn registry_keeps_latest_registration() {
    let mut registry = StartRegistry::new();
    registry.register("abc", 100);
    registry.register("def", 200);
    registry.register("abc", 300);
    assert_eq!(registry.started_at("abc"), Some(300));
    assert_eq!(registry.started_at("def"), Some(200));
}

#[test]
fn registry_grace_is_per_container() {
    let mut registry = StartRegistry::new();
    registry.register("old", 0);
    registry.register("new", 5_000);
    assert_eq!(registry.log_access_delay("old", 5_200), 0);
    assert_eq!(registry.log_access_delay("new", 5_200), 800);
    assert_eq!(registry.log_access_delay("unknown", 5_200), 0);
}
