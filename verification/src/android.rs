//! The lock on a phone, where a service of the system enforces it.
//!
//! The service is reached by calls that the program around this library
//! makes. Here stand the values that go to the service and come back, and
//! what each command makes of a reply.

use crate::timelock::{millis_instant, LockState, Timestamp};
use vstd::prelude::*;
use vstd::string::StringExecFns;

verus! {

/// A failed call to the service.
#[derive(Debug)]
pub enum Error {
    /// The call failed. Holds the cause as the bridge gave it.
    Plugin(String),
}

/// Which permissions the service has.
#[derive(Debug)]
pub struct AndroidPermissions {
    pub vpn: bool,
    pub accessibility: bool,
    pub all_ready: bool,
}

/// The service's reply to the request to start blocking.
#[derive(Debug)]
pub struct AndroidLockResult {
    pub success: bool,
    pub error: Option<String>,
}

/// The state of the lock as the service tells it. `unlock_time` counts
/// milliseconds since the start of 1970.
#[derive(Debug)]
pub struct AndroidLockState {
    pub is_locked: bool,
    pub remaining_seconds: i64,
    pub unlock_time: Option<i64>,
}

/// The service's reply to the request for the VPN permission.
#[derive(Debug)]
pub struct VpnPermissionResult {
    pub granted: bool,
}

/// The apps that the service blocks.
#[derive(Debug)]
pub struct BlockedAppsResult {
    pub apps: Vec<String>,
}

/// The request to start blocking.
#[derive(Debug)]
pub struct StartBlockingRequest {
    pub duration_minutes: i32,
}

/// The text that formatting `text` with `{:?}` gives: `text` in double
/// quotes, with the characters escaped that std escapes.
pub uninterp spec fn debug_text(text: Seq<char>) -> Seq<char>;

/// `<str as Debug>::fmt` of std, through `format!`: the named text.
#[verifier::external_body]
fn debug_quoted(text: &str) -> (quoted: String)
    ensures
        quoted@ == debug_text(text@),
{
    format!("{:?}", text)
}

/// What a command reports when the call for `action` failed with `error`.
pub open spec fn failure_text(action: Seq<char>, error: Error) -> Seq<char> {
    "Failed to "@ + action + ": "@ + error.debug_view()
}

impl Error {
    /// The words in which the error is told to the user.
    pub open spec fn message_text(&self) -> Seq<char> {
        match self {
            Error::Plugin(cause) => "Plugin error: "@ + cause@,
        }
    }

    /// The error as `{:?}` formats it.
    pub open spec fn debug_view(&self) -> Seq<char> {
        match self {
            Error::Plugin(cause) => "Plugin("@ + debug_text(cause@) + ")"@,
        }
    }

    /// The words in which the error is told to the user.
    pub fn message(&self) -> (text: String)
        ensures
            text@ == self.message_text(),
    {
        match self {
            Error::Plugin(cause) => {
                let mut text = "Plugin error: ".to_owned();
                text.append(cause.as_str());
                text
            },
        }
    }

    /// The error as `{:?}` formats it.
    pub fn debug(&self) -> (text: String)
        ensures
            text@ == self.debug_view(),
    {
        match self {
            Error::Plugin(cause) => {
                let quoted = debug_quoted(cause.as_str());
                let mut text = "Plugin(".to_owned();
                text.append(quoted.as_str());
                text.append(")");
                text
            },
        }
    }
}

/// What a command reports when the call for `action` failed with `error`.
pub fn failure(action: &str, error: &Error) -> (text: String)
    ensures
        text@ == failure_text(action@, *error),
{
    let mut text = "Failed to ".to_owned();
    text.append(action);
    text.append(": ");
    text.append(error.debug().as_str());
    text
}

/// The reply of the call for `action` as the command reports it: the value
/// that came back, or the failure in words.
pub fn reply_or_failure<T>(reply: Result<T, Error>, action: &str) -> (told: Result<T, String>)
    ensures
        match reply {
            Ok(value) => told == Ok::<T, String>(value),
            Err(error) => told matches Err(text) && text@ == failure_text(action@, error),
        },
{
    match reply {
        Ok(value) => Ok(value),
        Err(error) => Err(failure(action, &error)),
    }
}

impl StartBlockingRequest {
    /// The request for a lock of `duration_minutes` minutes. The service
    /// takes 32 bits: of a longer number the low 32 bits go out.
    pub fn new(duration_minutes: i64) -> (request: Self)
        ensures
            request.duration_minutes == duration_minutes as i32,
    {
        StartBlockingRequest { duration_minutes: #[verifier::truncate] (duration_minutes as i32) }
    }
}

/// The instant that the service's `unlock_time` stands for, with `now` in
/// place of one that is out of the library's range.
pub open spec fn unlock_instant(unlock_time: Option<i64>, now: Timestamp) -> Option<Timestamp> {
    match unlock_time {
        Some(millis) => Some(
            match millis_instant(millis as int) {
                Some(instant) => instant,
                None => now,
            },
        ),
        None => None,
    }
}

/// The state of the lock as the service tells it, for a caller of this
/// library.
pub open spec fn state_of(state: AndroidLockState, now: Timestamp) -> LockState {
    LockState {
        is_locked: state.is_locked,
        unlock_time: unlock_instant(state.unlock_time, now),
        remaining_seconds: state.remaining_seconds,
    }
}

/// The state of the lock as the service tells it, for a caller of this
/// library: what the service says of the lock and of the time left, and the
/// instant that its milliseconds stand for. `now` is what the clock reads.
pub fn lock_state_of(state: &AndroidLockState, now: Timestamp) -> (told: LockState)
    ensures
        told == state_of(*state, now),
{
    let unlock_time = match state.unlock_time {
        Some(millis) => Some(
            match Timestamp::from_millis(millis) {
                Some(instant) => instant,
                None => now,
            },
        ),
        None => None,
    };
    LockState {
        is_locked: state.is_locked,
        unlock_time,
        remaining_seconds: state.remaining_seconds,
    }
}

/// What `start_lock` makes of the reply to the request to start blocking:
/// `Ok` where the service has started, so that the state is to be asked for
/// next; else the service's own words, or "Unknown error" where it gave
/// none, or the failure of the call.
pub fn start_lock(reply: Result<AndroidLockResult, Error>) -> (told: Result<(), String>)
    ensures
        match reply {
            Ok(result) => if result.success {
                told is Ok
            } else {
                told matches Err(text) && text@ == match result.error {
                    Some(words) => words@,
                    None => "Unknown error"@,
                }
            },
            Err(error) => told matches Err(text) && text@ == failure_text(
                "start blocking"@,
                error,
            ),
        },
{
    match reply {
        Ok(result) => {
            if result.success {
                Ok(())
            } else {
                match result.error {
                    Some(words) => Err(words),
                    None => Err("Unknown error".to_owned()),
                }
            }
        },
        Err(error) => Err(failure("start blocking", &error)),
    }
}

/// What `get_lock_state` makes of the service's reply: the state it tells,
/// or the failure of the call.
pub fn get_lock_state(reply: Result<AndroidLockState, Error>, now: Timestamp) -> (told: Result<
    LockState,
    String,
>)
    ensures
        match reply {
            Ok(state) => told matches Ok(lock) && lock == state_of(state, now),
            Err(error) => told matches Err(text) && text@ == failure_text(
                "get lock state"@,
                error,
            ),
        },
{
    match reply {
        Ok(state) => Ok(lock_state_of(&state, now)),
        Err(error) => Err(failure("get lock state", &error)),
    }
}

/// What `emergency_unlock` makes of the reply to the request to stop
/// blocking.
pub fn emergency_unlock(reply: Result<(), Error>) -> (told: Result<(), String>)
    ensures
        match reply {
            Ok(_) => told is Ok,
            Err(error) => told matches Err(text) && text@ == failure_text(
                "stop blocking"@,
                error,
            ),
        },
{
    match reply {
        Ok(_) => Ok(()),
        Err(error) => Err(failure("stop blocking", &error)),
    }
}

/// What `get_blocked_domains` makes of the service's reply: the apps it
/// names, or none where the call failed.
pub fn get_blocked_domains(reply: Result<BlockedAppsResult, Error>) -> (apps: Vec<String>)
    ensures
        match reply {
            Ok(result) => apps == result.apps,
            Err(_) => apps@.len() == 0,
        },
{
    match reply {
        Ok(result) => result.apps,
        Err(_) => Vec::new(),
    }
}

/// What `check_permissions` makes of the service's reply.
pub fn check_permissions(reply: Result<AndroidPermissions, Error>) -> (told: Result<
    AndroidPermissions,
    String,
>)
    ensures
        match reply {
            Ok(value) => told == Ok::<AndroidPermissions, String>(value),
            Err(error) => told matches Err(text) && text@ == failure_text(
                "check permissions"@,
                error,
            ),
        },
{
    reply_or_failure(reply, "check permissions")
}

/// What `request_vpn_permission` makes of the service's reply.
pub fn request_vpn_permission(reply: Result<VpnPermissionResult, Error>) -> (told: Result<
    VpnPermissionResult,
    String,
>)
    ensures
        match reply {
            Ok(value) => told == Ok::<VpnPermissionResult, String>(value),
            Err(error) => told matches Err(text) && text@ == failure_text(
                "request VPN permission"@,
                error,
            ),
        },
{
    reply_or_failure(reply, "request VPN permission")
}

/// What `open_accessibility_settings` makes of the service's reply.
pub fn open_accessibility_settings(reply: Result<(), Error>) -> (told: Result<(), String>)
    ensures
        match reply {
            Ok(_) => told is Ok,
            Err(error) => told matches Err(text) && text@ == failure_text(
                "open accessibility settings"@,
                error,
            ),
        },
{
    reply_or_failure(reply, "open accessibility settings")
}

} // verus!
