use rmlx_server::session_cache::{effective_prompt_cache_slots, SessionCache, SessionKey};

fn key(model: &str, session: &str) -> SessionKey {
    SessionKey {
        model_id: model.to_owned(),
        session_id: session.to_owned(),
    }
}

#[test]
fn returning_session_is_a_hit() {
    let mut c = SessionCache::new(2);
    assert!(!c.touch(key("m", "a"), 10));
    assert!(c.touch(key("m", "a"), 20));
    assert_eq!(c.active_count(), 1);
}

#[test]
fn oldest_session_goes_first() {
    let mut c = SessionCache::new(2);
    let _ = c.touch(key("m", "a"), 1);
    let _ = c.touch(key("m", "b"), 1);
    let _ = c.touch(key("m", "a"), 2); // b is now the oldest
    assert!(!c.touch(key("m", "c"), 1));
    assert_eq!(c.active_count(), 2);
    assert!(c.touch(key("m", "a"), 3));
    assert!(!c.touch(key("m", "b"), 1));
}

#[test]
fn zero_capacity_holds_one_session() {
    let mut c = SessionCache::new(0);
    assert!(!c.touch(key("m", "a"), 1));
    assert!(c.touch(key("m", "a"), 1));
    assert!(!c.touch(key("m", "b"), 1));
    assert_eq!(c.active_count(), 1);
}

#[test]
fn models_do_not_collide() {
    let mut c = SessionCache::new(8);
    assert!(!c.touch(key("m1", "a"), 1));
    assert!(!c.touch(key("m2", "a"), 1));
    c.remove_model("m1");
    assert_eq!(c.active_count(), 1);
    assert!(c.touch(key("m2", "a"), 1));
    assert!(!c.touch(key("m1", "a"), 1));
}

#[test]
fn removal_is_exact() {
    let mut c = SessionCache::new(8);
    let _ = c.touch(key("m", "a"), 1);
    let _ = c.touch(key("m", "b"), 1);
    c.remove(&key("m", "a"));
    c.remove(&key("m", "zzz"));
    assert_eq!(c.active_count(), 1);
    assert!(c.touch(key("m", "b"), 1));
}

#[test]
fn slots_widen_the_configured_base() {
    assert_eq!(effective_prompt_cache_slots(0, 5), None);
    assert_eq!(effective_prompt_cache_slots(8, 0), Some(8));
    assert_eq!(effective_prompt_cache_slots(8, 3), Some(11));
}
