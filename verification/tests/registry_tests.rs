use up_test_agent::registry::ListenerRegistry;

fn ids(v: &[&str]) -> Vec<String> {
    v.iter().map(|s| s.to_string()).collect()
}

#[test]
fn new_registry_has_no_listeners() {
    let r = ListenerRegistry::new();
    assert!(r.listeners(&b"topic".to_vec()).is_empty());
}

#[test]
fn registering_appends_in_order() {
    let mut r = ListenerRegistry::new();
    let t1 = b"t1".to_vec();
    let t2 = b"t2".to_vec();
    r.register_listener(t1.clone(), "a".to_string());
    r.register_listener(t2.clone(), "c".to_string());
    r.register_listener(t1.clone(), "b".to_string());
    r.register_listener(t1.clone(), "a".to_string());
    assert_eq!(r.listeners(&t1), ids(&["a", "b", "a"]));
    assert_eq!(r.listeners(&t2), ids(&["c"]));
}

#[test]
fn unregistering_removes_the_first_match() {
    let mut r = ListenerRegistry::new();
    let t = b"t".to_vec();
    for id in ["a", "b", "a"] {
        r.register_listener(t.clone(), id.to_string());
    }
    assert!(r.unregister_listener(&t, "a"));
    assert_eq!(r.listeners(&t), ids(&["b", "a"]));
    assert!(!r.unregister_listener(&t, "zzz"));
    assert_eq!(r.listeners(&t), ids(&["b", "a"]));
    assert!(r.unregister_listener(&t, "b"));
    assert_eq!(r.listeners(&t), ids(&["a"]));
}

#[test]
fn unknown_listener_is_reported_and_changes_nothing() {
    let mut r = ListenerRegistry::new();
    let t = b"t".to_vec();
    let other = b"o".to_vec();
    r.register_listener(t.clone(), "only".to_string());
    r.register_listener(other.clone(), "x".to_string());
    // Naming a listener that is not on the topic fails and leaves the topic as it was.
    assert!(!r.unregister_listener(&t, "someone-else"));
    assert_eq!(r.listeners(&t), ids(&["only"]));
    // Unregistering from an unknown topic fails and changes nothing.
    assert!(!r.unregister_listener(&b"nope".to_vec(), "x"));
    assert_eq!(r.listeners(&other), ids(&["x"]));
    // The last listener takes the topic with it.
    assert!(r.unregister_listener(&t, "only"));
    assert!(r.listeners(&t).is_empty());
    assert!(!r.unregister_listener(&t, "only"));
    assert_eq!(r.listeners(&other), ids(&["x"]));
}

#[test]
fn register_then_unregister_restores_the_listeners() {
    let mut r = ListenerRegistry::new();
    let t = b"t".to_vec();
    r.register_listener(t.clone(), "a".to_string());
    r.register_listener(t.clone(), "b".to_string());
    let before = r.listeners(&t);
    r.register_listener(t.clone(), "c".to_string());
    assert!(r.unregister_listener(&t, "c"));
    assert_eq!(r.listeners(&t), before);
    let fresh = b"fresh".to_vec();
    r.register_listener(fresh.clone(), "z".to_string());
    assert!(r.unregister_listener(&fresh, "z"));
    assert!(r.listeners(&fresh).is_empty());
    assert_eq!(r.listeners(&t), before);
}
