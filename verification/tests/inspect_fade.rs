use idle_dungeons::inspect_fade::{tick_outcome, DebounceEffect, InspectFadeKeys, InspectFadeTick};

#[test]
fn debounce_then_apply_on_target_change() {
    let mut keys = InspectFadeKeys::new();
    assert!(keys.is_uninitialized());
    assert_eq!(keys.notify_target("a".to_string(), false), DebounceEffect::Restart);
    assert!(keys.debounce_settled());
    assert_eq!(keys.displayed_key, "a");
    assert!(keys.take_apply_pending());
    assert!(!keys.take_apply_pending());
}

#[test]
fn same_pending_target_keeps_timer_and_returning_cancels() {
    let mut keys = InspectFadeKeys::new();
    keys.mark_initialized("a".to_string());
    assert!(!keys.is_uninitialized());
    assert!(keys.take_apply_pending());
    assert_eq!(keys.notify_target("b".to_string(), false), DebounceEffect::Restart);
    assert_eq!(keys.notify_target("b".to_string(), true), DebounceEffect::Keep);
    assert_eq!(keys.notify_target("a".to_string(), true), DebounceEffect::Stop);
    assert!(!keys.debounce_settled());
    assert_eq!(keys.displayed_key, "a");
    assert!(!keys.take_apply_pending());
}

#[test]
fn settle_applies_only_once() {
    let mut keys = InspectFadeKeys::new();
    keys.mark_initialized("a".to_string());
    keys.notify_target("b".to_string(), false);
    assert!(keys.debounce_settled());
    assert!(!keys.debounce_settled());
    assert_eq!(keys.displayed_key, "b");
}

#[test]
fn tick_outcomes() {
    assert_eq!(tick_outcome(true, true), InspectFadeTick::ApplyContent);
    assert_eq!(tick_outcome(false, true), InspectFadeTick::Animating);
    assert_eq!(tick_outcome(false, false), InspectFadeTick::Idle);
}
