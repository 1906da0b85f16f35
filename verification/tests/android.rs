use focuslock::android::{
    check_permissions, emergency_unlock, failure, get_blocked_domains, get_lock_state,
    lock_state_of, open_accessibility_settings, reply_or_failure, request_vpn_permission,
    start_lock, AndroidLockResult, AndroidLockState, AndroidPermissions, BlockedAppsResult, Error,
    StartBlockingRequest, VpnPermissionResult,
};
use focuslock::timelock::{LockState, Timestamp};

fn moment(secs: i64, nanos: u32) -> Timestamp {
    Timestamp::new(secs, nanos).unwrap()
}

fn plugin(cause: &str) -> Error {
    Error::Plugin(cause.to_string())
}

#[test]
fn plugin_error_message() {
    assert_eq!(plugin("bridge closed").message(), "Plugin error: bridge closed");
}

#[test]
fn plugin_error_debug_text_is_what_std_formats() {
    for cause in ["bridge closed", "say \"hi\"", "line\nbreak", "back\\slash", ""] {
        let error = plugin(cause);
        assert_eq!(error.debug(), format!("{:?}", error), "{cause:?}");
    }
    assert_eq!(plugin("say \"hi\"").debug(), "Plugin(\"say \\\"hi\\\"\")");
}

#[test]
fn failure_names_the_action_and_the_error() {
    assert_eq!(
        failure("start blocking", &plugin("no service")),
        "Failed to start blocking: Plugin(\"no service\")"
    );
}

#[test]
fn reply_or_failure_hands_the_value_on() {
    assert_eq!(reply_or_failure(Ok(7u8), "count"), Ok(7u8));
    assert_eq!(
        reply_or_failure::<u8>(Err(plugin("x")), "count"),
        Err("Failed to count: Plugin(\"x\")".to_string())
    );
}

#[test]
fn start_blocking_request_keeps_the_low_32_bits() {
    assert_eq!(StartBlockingRequest::new(25).duration_minutes, 25);
    assert_eq!(StartBlockingRequest::new(-1).duration_minutes, -1);
    assert_eq!(StartBlockingRequest::new(i32::MAX as i64).duration_minutes, i32::MAX);
    assert_eq!(StartBlockingRequest::new(i32::MAX as i64 + 1).duration_minutes, i32::MIN);
    assert_eq!(StartBlockingRequest::new(1 << 32).duration_minutes, 0);
}

#[test]
fn lock_state_of_reads_the_milliseconds() {
    let now = moment(1_700_000_000, 0);
    let told = lock_state_of(
        &AndroidLockState { is_locked: true, remaining_seconds: 299, unlock_time: Some(1_700_000_300_250) },
        now,
    );
    assert_eq!(
        told,
        LockState {
            is_locked: true,
            unlock_time: Some(moment(1_700_000_300, 250_000_000)),
            remaining_seconds: 299,
        }
    );
    let none = lock_state_of(
        &AndroidLockState { is_locked: false, remaining_seconds: 0, unlock_time: None },
        now,
    );
    assert_eq!(none, LockState { is_locked: false, unlock_time: None, remaining_seconds: 0 });
}

#[test]
fn lock_state_of_falls_back_to_the_clock() {
    let now = moment(1_700_000_000, 5);
    let told = lock_state_of(
        &AndroidLockState { is_locked: true, remaining_seconds: 1, unlock_time: Some(i64::MAX) },
        now,
    );
    assert_eq!(told.unlock_time, Some(now));
}

#[test]
fn start_lock_reply_success_goes_on() {
    assert_eq!(start_lock(Ok(AndroidLockResult { success: true, error: None })), Ok(()));
    assert_eq!(
        start_lock(Ok(AndroidLockResult { success: true, error: Some("ignored".to_string()) })),
        Ok(())
    );
}

#[test]
fn start_lock_reply_refusal_gives_the_service_words() {
    assert_eq!(
        start_lock(Ok(AndroidLockResult { success: false, error: Some("VPN not granted".to_string()) })),
        Err("VPN not granted".to_string())
    );
    assert_eq!(
        start_lock(Ok(AndroidLockResult { success: false, error: None })),
        Err("Unknown error".to_string())
    );
    assert_eq!(
        start_lock(Err(plugin("down"))),
        Err("Failed to start blocking: Plugin(\"down\")".to_string())
    );
}

#[test]
fn get_lock_state_reply() {
    let now = moment(1_700_000_000, 0);
    let told = get_lock_state(
        Ok(AndroidLockState { is_locked: true, remaining_seconds: 60, unlock_time: Some(1_700_000_060_000) }),
        now,
    );
    assert_eq!(
        told,
        Ok(LockState { is_locked: true, unlock_time: Some(moment(1_700_000_060, 0)), remaining_seconds: 60 })
    );
    assert_eq!(
        get_lock_state(Err(plugin("down")), now),
        Err("Failed to get lock state: Plugin(\"down\")".to_string())
    );
}

#[test]
fn emergency_unlock_reply() {
    assert_eq!(emergency_unlock(Ok(())), Ok(()));
    assert_eq!(
        emergency_unlock(Err(plugin("down"))),
        Err("Failed to stop blocking: Plugin(\"down\")".to_string())
    );
}

#[test]
fn blocked_apps_reply() {
    let apps = vec!["com.example.a".to_string(), "com.example.b".to_string()];
    assert_eq!(get_blocked_domains(Ok(BlockedAppsResult { apps: apps.clone() })), apps);
    assert_eq!(get_blocked_domains(Err(plugin("down"))), Vec::<String>::new());
}

#[test]
fn permission_replies() {
    let ready = check_permissions(Ok(AndroidPermissions { vpn: true, accessibility: false, all_ready: false }))
        .unwrap();
    assert!(ready.vpn && !ready.accessibility && !ready.all_ready);
    assert_eq!(
        check_permissions(Err(plugin("down"))).unwrap_err(),
        "Failed to check permissions: Plugin(\"down\")"
    );
    assert!(request_vpn_permission(Ok(VpnPermissionResult { granted: true })).unwrap().granted);
    assert_eq!(
        request_vpn_permission(Err(plugin("down"))).unwrap_err(),
        "Failed to request VPN permission: Plugin(\"down\")"
    );
    assert_eq!(open_accessibility_settings(Ok(())), Ok(()));
    assert_eq!(
        open_accessibility_settings(Err(plugin("down"))),
        Err("Failed to open accessibility settings: Plugin(\"down\")".to_string())
    );
}
