use coroutine_system::registry::RunningCoroutines;

#[test]
fn register_twice_keeps_one_entry() {
    let mut reg = RunningCoroutines::new();
    reg.register_coroutine(String::from("demo::walk"), 1);
    reg.register_coroutine(String::from("demo::walk"), 1);
    assert_eq!(reg.register_systems.len(), 1);
    assert_eq!(reg.register_systems[0].1, 1);
}

#[test]
fn register_again_reassociates_the_entry() {
    let mut reg = RunningCoroutines::new();
    reg.register_coroutine(String::from("demo::walk"), 1);
    reg.register_coroutine(String::from("demo::walk"), 9);
    assert_eq!(reg.register_systems.len(), 1);
    assert_eq!(reg.register_systems[0].1, 9);
}

#[test]
fn register_distinct_identities() {
    let mut reg = RunningCoroutines::new();
    reg.register_coroutine(String::from("demo::walk"), 1);
    reg.register_coroutine(String::from("demo::blink"), 2);
    assert_eq!(reg.register_systems.len(), 2);
}

#[test]
fn trigger_marks_active_and_is_idempotent() {
    let mut reg = RunningCoroutines::new();
    let id = String::from("demo::walk");
    assert!(!reg.is_active(&id));
    reg.mark_active(&id);
    assert!(reg.is_active(&id));
    reg.mark_active(&id);
    assert!(reg.is_active(&id));
    assert_eq!(reg.systems.len(), 1);
}

#[test]
fn mark_inactive_removes_only_that_identity() {
    let mut reg = RunningCoroutines::new();
    let a = String::from("demo::walk");
    let b = String::from("demo::blink");
    reg.mark_active(&a);
    reg.mark_active(&b);
    reg.mark_inactive(&a);
    assert!(!reg.is_active(&a));
    assert!(reg.is_active(&b));
}

#[test]
fn mark_inactive_on_inactive_is_a_noop() {
    let mut reg = RunningCoroutines::new();
    let a = String::from("demo::walk");
    reg.mark_inactive(&a);
    assert!(!reg.is_active(&a));
    assert_eq!(reg.systems.len(), 0);
}

#[test]
fn active_entries_lists_only_active_in_registration_order() {
    let mut reg = RunningCoroutines::new();
    reg.register_coroutine(String::from("demo::walk"), 10);
    reg.register_coroutine(String::from("demo::blink"), 20);
    reg.register_coroutine(String::from("demo::wave"), 30);
    reg.mark_active(&String::from("demo::wave"));
    reg.mark_active(&String::from("demo::walk"));
    let entries = reg.active_entries();
    assert_eq!(entries, vec![10, 30]);
}

#[test]
fn active_entries_empty_when_nothing_active() {
    let mut reg = RunningCoroutines::new();
    reg.register_coroutine(String::from("demo::walk"), 10);
    let entries = reg.active_entries();
    assert_eq!(entries.len(), 0);
}
