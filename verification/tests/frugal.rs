use rustpanel_core::frugal::{idle_exit_policy, should_exit, touch, ActivityState, BusyGuard};

#[test]
fn idle_exit_requires_socket_activation() {
    assert_eq!(idle_exit_policy(Some("5"), true, false), None);
    assert_eq!(idle_exit_policy(None, true, false), None);
}

#[test]
fn micro_defaults_to_ten_minutes_and_env_overrides() {
    assert_eq!(idle_exit_policy(None, true, true), Some(600));
    assert_eq!(idle_exit_policy(None, false, true), None);
    assert_eq!(idle_exit_policy(Some("3"), false, true), Some(180));
    assert_eq!(idle_exit_policy(Some("0"), true, true), None);
    assert_eq!(idle_exit_policy(Some("abc"), true, true), None);
    assert_eq!(idle_exit_policy(Some(" "), true, true), Some(600));
}

#[test]
fn busy_work_blocks_exit_even_when_idle_long_enough() {
    let limit = 60_000;
    assert!(!should_exit(1, 3_600_000, limit));
    assert!(!should_exit(0, 59_000, limit));
    assert!(should_exit(0, 60_000, limit));
}

#[test]
fn huge_minute_values_saturate() {
    assert_eq!(idle_exit_policy(Some("18446744073709551615"), false, true), Some(u64::MAX));
}

#[test]
fn busy_guard_refreshes_activity() {
    let mut state = ActivityState::new();
    let guard = BusyGuard::new(&mut state, 1_000);
    assert!(state.busy() >= 1);
    assert!(!state.exit_due(1_000_000, 60_000));
    guard.release(&mut state, 2_000);
    assert_eq!(state.busy(), 0);
    assert!(state.idle_for(2_500) < 5_000);
}

#[test]
fn touch_restarts_the_idle_clock() {
    let mut state = ActivityState::new();
    touch(&mut state, 10_000);
    assert_eq!(state.idle_for(70_000), 60_000);
    assert!(state.exit_due(70_000, 60_000));
    assert_eq!(state.idle_for(5_000), 0);
    touch(&mut state, 70_000);
    assert!(!state.exit_due(70_000, 60_000));
}
