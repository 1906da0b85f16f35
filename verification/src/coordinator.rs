//! The coordinator: what each command does to the stored timer, to the hosts
//! file and to the watcher, step by step.
//!
//! A command is planned from what was read beforehand: the timer's slot, the
//! hosts file, the clock. The plan is a list of steps for the program around
//! this library to take in order, each with what is to happen if it fails,
//! and the result to report if none stops the command. The stored timer
//! decides; the hosts file and the watcher are brought in line with it.

use crate::hosts::{
    block_entries, block_steps, blocked_domains, has_block, holds_block, hosts_path_of, str_views,
    unblock_steps, unblocked, was_read, HostsBlocker, HostsError, Platform,
};
use crate::process::ProcessWatcher;
use crate::steps::{
    after_failure, may, or_settle, pass_over, passed_over, push_steps, settle, skip_target,
    AfterFailure, Effect, FailureKind, OnFailure, Step,
};
use crate::text::{str_of, text_of};
use crate::timelock::{
    clear_steps, in_range, lock_state, minutes_after, rfc3339_text, save_steps, started_state,
    stored_instant, unlocked_state, LockState, TimeLock, Timestamp,
};
use vstd::prelude::*;

verus! {

/// Why a command failed.
#[derive(Debug)]
pub enum LockError {
    /// The timer's store failed. Holds the cause as the store gave it.
    Storage(String),
    /// The hosts file could not be read or changed.
    Hosts(HostsError),
}

/// Whether `error` is the error of `kind` with cause `cause`.
pub open spec fn is_failure(error: LockError, kind: FailureKind, cause: Seq<char>) -> bool {
    match kind {
        FailureKind::Storage => error matches LockError::Storage(text) && text@ == cause,
        FailureKind::HostsRead => error matches LockError::Hosts(HostsError::ReadError(text))
            && text@ == cause,
        FailureKind::PermissionDenied => error matches LockError::Hosts(
            HostsError::PermissionDenied,
        ),
    }
}

impl LockError {
    /// The words in which the error is told to the user.
    pub open spec fn message_text(&self) -> Seq<char> {
        match self {
            LockError::Storage(cause) => cause@,
            LockError::Hosts(error) => error.message_text(),
        }
    }

    /// The error of `kind` with cause `cause`.
    pub fn of_kind(kind: FailureKind, cause: &str) -> (error: LockError)
        ensures
            is_failure(error, kind, cause@),
    {
        match kind {
            FailureKind::Storage => LockError::Storage(cause.to_owned()),
            FailureKind::HostsRead => LockError::Hosts(HostsError::ReadError(cause.to_owned())),
            FailureKind::PermissionDenied => LockError::Hosts(HostsError::PermissionDenied),
        }
    }

    /// The words in which the error is told to the user: for a failure of the
    /// store its cause, for one of the hosts file what `HostsError::message`
    /// gives.
    pub fn message(&self) -> (text: String)
        ensures
            text@ == self.message_text(),
    {
        match self {
            LockError::Storage(cause) => cause.clone(),
            LockError::Hosts(error) => error.message(),
        }
    }
}

/// How a command goes on after a step.
#[derive(Debug)]
pub enum Next {
    /// With the step at this position; the command is through its steps
    /// where that is their number.
    Continue(usize),
    /// Not at all: this is its result.
    Finish(Result<LockState, LockError>),
}

/// The steps of a command and what it reports when none of them stops it.
#[derive(Debug)]
pub struct Plan {
    /// The steps, in the order in which they are taken.
    pub steps: Vec<Step>,
    /// The text that `SaveRecord` stores.
    pub record: Option<String>,
    /// The text that `ReplaceHosts` writes.
    pub replacement: Option<String>,
    /// The text that `AppendHosts` adds.
    pub addition: Option<String>,
    /// The result of the command once its steps are taken.
    pub outcome: Result<LockState, LockError>,
}

impl Plan {
    /// The plan holds the text for each of its steps that writes one.
    pub open spec fn wf(&self) -> bool {
        forall|i: int|
            0 <= i < self.steps@.len() ==> match (#[trigger] self.steps@[i]).effect {
                Effect::SaveRecord => self.record is Some,
                Effect::ReplaceHosts => self.replacement is Some,
                Effect::AppendHosts => self.addition is Some,
                _ => true,
            }
    }

    /// The plan of a command that ends before its first step, with the
    /// error of `kind` with cause `cause`.
    pub open spec fn is_refusal(&self, kind: FailureKind, cause: Seq<char>) -> bool {
        &&& self.steps@ == Seq::<Step>::empty()
        &&& self.record is None
        &&& self.replacement is None
        &&& self.addition is None
        &&& self.outcome matches Err(error)
        &&& is_failure(error, kind, cause)
    }

    /// The plan of a command that ends before its first step.
    fn refusal(kind: FailureKind, cause: &str) -> (plan: Plan)
        ensures
            plan.is_refusal(kind, cause@),
    {
        Plan {
            steps: Vec::new(),
            record: None,
            replacement: None,
            addition: None,
            outcome: Err(LockError::of_kind(kind, cause)),
        }
    }

    /// How the command goes on after the step at `index` has failed with
    /// `cause`.
    pub fn after_failure(&self, index: usize, cause: &str) -> (next: Next)
        requires
            index < self.steps.len(),
        ensures
            match self.steps[index as int].on_failure {
                OnFailure::Fail(kind) => next matches Next::Finish(Err(error)) && is_failure(
                    error,
                    kind,
                    cause@,
                ),
                OnFailure::Skip(skipped) => next matches Next::Continue(at) && at == skip_target(
                    self.steps.len() as int,
                    index as int,
                    skipped as int,
                ),
                OnFailure::Settle(state) => next matches Next::Finish(Ok(told)) && told == state,
            },
    {
        match after_failure(&self.steps, index) {
            AfterFailure::Fail(kind) => Next::Finish(Err(LockError::of_kind(kind, cause))),
            AfterFailure::Continue(at) => Next::Continue(at),
            AfterFailure::Settle(state) => Next::Finish(Ok(state)),
        }
    }
}

/// The steps of `start_lock`: the timer is stored first, then the block is
/// put in and the watcher started. Where the hosts file could not be read,
/// only the timer is stored.
pub open spec fn start_lock_steps(hosts_readable: bool, had_block: bool) -> Seq<Step> {
    save_steps() + (if hosts_readable {
        block_steps(had_block) + seq![may(Effect::StartWatcher)]
    } else {
        Seq::empty()
    })
}

/// The steps of `emergency_unlock`: the slot is emptied, the block taken out
/// of the hosts file, the watcher stopped. Where the hosts file could not be
/// read, only the slot is emptied.
pub open spec fn emergency_unlock_steps(hosts_readable: bool) -> Seq<Step> {
    clear_steps() + (if hosts_readable {
        unblock_steps() + seq![may(Effect::StopWatcher)]
    } else {
        Seq::empty()
    })
}

/// The steps that lift what is still enforced: where the hosts file holds
/// the block, that is taken out, with failures passed over; then the watcher
/// is stopped. There are none where no block stands and no watcher runs.
pub open spec fn lift_steps(had_block: bool, watching: bool) -> Seq<Step> {
    if had_block || watching {
        (if had_block {
            passed_over(unblock_steps())
        } else {
            Seq::empty()
        }) + seq![may(Effect::StopWatcher)]
    } else {
        Seq::empty()
    }
}

/// The state reported where a slot whose instant is reached could not be
/// emptied: still locked until `end`, with no time left.
pub open spec fn stale_state(end: Timestamp) -> LockState {
    LockState { is_locked: true, unlock_time: Some(end), remaining_seconds: 0 }
}

/// The steps of `get_lock_state` where no lock is active: a slot whose
/// instant is reached is emptied, and what is still enforced is lifted.
/// Should the slot not be emptied, the command ends there and reports the
/// stale state.
pub open spec fn reconcile_steps(
    unlock: Option<Timestamp>,
    had_block: bool,
    watching: bool,
) -> Seq<Step> {
    (match unlock {
        Some(end) => seq![or_settle(Effect::DeleteRecord, stale_state(end))],
        None => Seq::empty(),
    }) + lift_steps(had_block, watching)
}

/// The steps of `resume`. With an active lock the block is put into the
/// hosts file, with failures passed over, the watcher started and the start
/// with the system asked for. Without one a slot whose instant is reached is
/// emptied, and what is still enforced is lifted.
pub open spec fn resume_steps(
    locked: bool,
    unlock: Option<Timestamp>,
    hosts_readable: bool,
    had_block: bool,
    watching: bool,
) -> Seq<Step> {
    if locked {
        (if hosts_readable {
            passed_over(block_steps(had_block))
        } else {
            Seq::empty()
        }) + seq![may(Effect::StartWatcher), may(Effect::EnableAutostart)]
    } else {
        (if unlock is Some {
            seq![may(Effect::DeleteRecord)]
        } else {
            Seq::empty()
        }) + lift_steps(had_block, watching)
    }
}

/// Whether the program may quit: only where the state was read and no lock
/// is active.
pub fn may_quit<E>(state: &Result<LockState, E>) -> (allowed: bool)
    ensures
        allowed == (state matches Ok(told) && !told.is_locked),
{
    match state {
        Ok(told) => !told.is_locked,
        Err(_) => false,
    }
}

/// Whether a request to close the window only hides it: where the state was
/// read and a lock is active.
pub fn hides_on_close<E>(state: &Result<LockState, E>) -> (hides: bool)
    ensures
        hides == (state matches Ok(told) && told.is_locked),
{
    match state {
        Ok(told) => told.is_locked,
        Err(_) => false,
    }
}

/// What the commands work on: the timer, the editor of the hosts file and
/// the watcher.
pub struct AppState {
    pub timelock: TimeLock,
    pub hosts_blocker: HostsBlocker,
    pub process_watcher: ProcessWatcher,
}

impl AppState {
    /// The state at the start of the program on `platform`: the watcher does
    /// not run.
    pub fn new(platform: Platform) -> (state: AppState)
        ensures
            !state.process_watcher.running(),
            state.hosts_blocker.path() == hosts_path_of(platform),
    {
        AppState {
            timelock: TimeLock::new(),
            hosts_blocker: HostsBlocker::for_platform(platform),
            process_watcher: ProcessWatcher::new(),
        }
    }

    /// The domains that are blocked while a lock is active.
    pub fn get_blocked_domains() -> (domains: Vec<&'static str>)
        ensures
            str_views(domains@) == blocked_domains(),
    {
        HostsBlocker::get_blocked_domains()
    }

    /// The steps that lift what is still enforced, and the text that they
    /// write to the hosts file.
    fn lift(&self, hosts: Result<&str, &str>) -> (lifted: (Vec<Step>, Option<String>))
        ensures
            lifted.0@ == lift_steps(holds_block(hosts), self.process_watcher.running()),
            text_of(lifted.1) == match hosts {
                Ok(content) => if has_block(content@) {
                    Some(unblocked(content@))
                } else {
                    None
                },
                Err(_) => None,
            },
    {
        let mut steps: Vec<Step> = Vec::new();
        let mut replacement: Option<String> = None;
        let had_block = self.hosts_blocker.is_blocked(hosts);
        if had_block {
            let change = self.hosts_blocker.unblock(hosts);
            push_steps(&mut steps, &pass_over(&change.steps));
            replacement = change.replacement;
        }
        if had_block || self.process_watcher.is_running() {
            steps.push(Step::may(Effect::StopWatcher));
        }
        assert(steps@ =~= lift_steps(holds_block(hosts), self.process_watcher.running()));
        (steps, replacement)
    }

    /// Plans the start of a lock of `duration_minutes` minutes at `now`,
    /// where `hosts` is what reading the hosts file gave: its text, or the
    /// cause of the failure.
    ///
    /// The timer is stored before anything else, and it stays stored if a
    /// later step fails: the command then ends with that step's error
    /// instead of reporting success. A hosts file that could not be read
    /// ends the command with that error once the timer is stored. Else the
    /// block is put into the hosts file as `HostsBlocker::block` plans it,
    /// and the watcher is started.
    pub fn start_lock(
        &self,
        hosts: Result<&str, &str>,
        now: Timestamp,
        duration_minutes: i64,
    ) -> (plan: Plan)
        requires
            now.wf(),
            in_range(now.secs + 60 * duration_minutes),
        ensures
            plan.wf(),
            plan.steps@ == start_lock_steps(was_read(hosts), holds_block(hosts)),
            text_of(plan.record) == Some(
                rfc3339_text(
                    minutes_after(now, duration_minutes as int).secs,
                    minutes_after(now, duration_minutes as int).nanos,
                ),
            ),
            match hosts {
                Ok(content) => {
                    &&& text_of(plan.replacement) == if has_block(content@) {
                        Some(unblocked(content@))
                    } else {
                        None
                    }
                    &&& text_of(plan.addition) == Some(block_entries())
                    &&& plan.outcome matches Ok(state)
                    &&& state == started_state(now, duration_minutes as int)
                },
                Err(cause) => {
                    &&& plan.replacement is None
                    &&& plan.addition is None
                    &&& plan.outcome matches Err(error)
                    &&& is_failure(error, FailureKind::HostsRead, cause@)
                },
            },
    {
        let timer = self.timelock.start_lock(now, duration_minutes);
        let state = timer.outcome.unwrap();
        let record = timer.record;
        let mut steps: Vec<Step> = Vec::new();
        push_steps(&mut steps, &timer.steps);
        let change = self.hosts_blocker.block(hosts);
        push_steps(&mut steps, &change.steps);
        match change.outcome {
            Ok(_) => {
                steps.push(Step::may(Effect::StartWatcher));
                assert(steps@ =~= start_lock_steps(true, holds_block(hosts)));
                Plan {
                    steps,
                    record,
                    replacement: change.replacement,
                    addition: change.addition,
                    outcome: Ok(state),
                }
            },
            Err(error) => {
                assert(steps@ =~= start_lock_steps(false, false));
                Plan {
                    steps,
                    record,
                    replacement: None,
                    addition: None,
                    outcome: Err(LockError::Hosts(error)),
                }
            },
        }
    }

    /// Plans the reading of the lock's state at `now`, where `record` is
    /// what reading the timer's slot gave and `hosts` what reading the hosts
    /// file gave.
    ///
    /// A store that failed ends the command with that error: it does not
    /// count as unlocked. While the lock is active nothing is changed. Once
    /// its instant is reached the slot is emptied; should that fail, the
    /// command reports the lock as still active with no time left. Where no
    /// lock is active but the block still stands in the hosts file or the
    /// watcher still runs, the block is taken out and the watcher stopped;
    /// a hosts file that could not be read counts as holding no block, and a
    /// failure to replace it is passed over.
    pub fn get_lock_state(
        &self,
        record: Result<Option<&str>, &str>,
        hosts: Result<&str, &str>,
        now: Timestamp,
    ) -> (plan: Plan)
        requires
            now.wf(),
        ensures
            plan.wf(),
            plan.record is None,
            plan.addition is None,
            match record {
                Err(cause) => plan.is_refusal(FailureKind::Storage, cause@),
                Ok(stored) => {
                    let unlock = stored_instant(str_of(stored));
                    if lock_state(unlock, now).is_locked {
                        &&& plan.steps@ == Seq::<Step>::empty()
                        &&& plan.replacement is None
                        &&& plan.outcome matches Ok(state)
                        &&& state == lock_state(unlock, now)
                    } else {
                        &&& plan.steps@ == reconcile_steps(
                            unlock,
                            holds_block(hosts),
                            self.process_watcher.running(),
                        )
                        &&& text_of(plan.replacement) == match hosts {
                            Ok(content) => if has_block(content@) {
                                Some(unblocked(content@))
                            } else {
                                None
                            },
                            Err(_) => None,
                        }
                        &&& plan.outcome matches Ok(state)
                        &&& state == unlocked_state()
                    }
                },
            },
    {
        let timer = self.timelock.get_state(record, now);
        let state = match timer.outcome {
            Ok(state) => state,
            Err(error) => {
                return Plan::refusal(FailureKind::Storage, error.cause.as_str());
            },
        };
        if state.is_locked {
            return Plan {
                steps: Vec::new(),
                record: None,
                replacement: None,
                addition: None,
                outcome: Ok(state),
            };
        }
        let stale = match timer.expired {
            Some(end) => LockState {
                is_locked: true,
                unlock_time: Some(end),
                remaining_seconds: 0,
            },
            None => state,
        };
        let mut steps = settle(&timer.steps, stale);
        let (lift, replacement) = self.lift(hosts);
        push_steps(&mut steps, &lift);
        proof {
            let unlock = match record {
                Ok(stored) => stored_instant(str_of(stored)),
                Err(_) => None,
            };
            assert(steps@ =~= reconcile_steps(
                unlock,
                holds_block(hosts),
                self.process_watcher.running(),
            ));
        }
        Plan { steps, record: None, replacement, addition: None, outcome: Ok(state) }
    }

    /// Plans what is done once when the program starts, at `now`, where
    /// `record` is what reading the timer's slot gave and `hosts` what
    /// reading the hosts file gave.
    ///
    /// A store that failed ends the command with that error and nothing is
    /// changed. With an active lock the block is put into the hosts file
    /// again, the watcher started and the start with the system asked for;
    /// a failure at the hosts file only ends the steps on that file.
    /// Without an active lock a slot whose instant is reached is emptied,
    /// and where the block still stands in the hosts file or the watcher
    /// still runs, the block is taken out and the watcher stopped.
    pub fn resume(
        &self,
        record: Result<Option<&str>, &str>,
        hosts: Result<&str, &str>,
        now: Timestamp,
    ) -> (plan: Plan)
        requires
            now.wf(),
        ensures
            plan.wf(),
            plan.record is None,
            match record {
                Err(cause) => plan.is_refusal(FailureKind::Storage, cause@),
                Ok(stored) => {
                    let unlock = stored_instant(str_of(stored));
                    let locked = lock_state(unlock, now).is_locked;
                    &&& plan.steps@ == resume_steps(
                        locked,
                        unlock,
                        was_read(hosts),
                        holds_block(hosts),
                        self.process_watcher.running(),
                    )
                    &&& text_of(plan.replacement) == match hosts {
                        Ok(content) => if has_block(content@) {
                            Some(unblocked(content@))
                        } else {
                            None
                        },
                        Err(_) => None,
                    }
                    &&& text_of(plan.addition) == if locked && was_read(hosts) {
                        Some(block_entries())
                    } else {
                        None
                    }
                    &&& plan.outcome matches Ok(state)
                    &&& state == lock_state(unlock, now)
                },
            },
    {
        let timer = self.timelock.get_state(record, now);
        let state = match timer.outcome {
            Ok(state) => state,
            Err(error) => {
                return Plan::refusal(FailureKind::Storage, error.cause.as_str());
            },
        };
        let ghost unlock = match record {
            Ok(stored) => stored_instant(str_of(stored)),
            Err(_) => None,
        };
        let mut steps: Vec<Step> = Vec::new();
        if state.is_locked {
            let change = self.hosts_blocker.block(hosts);
            push_steps(&mut steps, &pass_over(&change.steps));
            steps.push(Step::may(Effect::StartWatcher));
            steps.push(Step::may(Effect::EnableAutostart));
            proof {
                if hosts is Err {
                    assert(passed_over(change.steps@) =~= Seq::<Step>::empty());
                }
                assert(steps@ =~= resume_steps(
                    true,
                    unlock,
                    was_read(hosts),
                    holds_block(hosts),
                    self.process_watcher.running(),
                ));
            }
            Plan {
                steps,
                record: None,
                replacement: change.replacement,
                addition: change.addition,
                outcome: Ok(state),
            }
        } else {
            push_steps(&mut steps, &pass_over(&timer.steps));
            let (lift, replacement) = self.lift(hosts);
            push_steps(&mut steps, &lift);
            assert(steps@ =~= resume_steps(
                false,
                unlock,
                was_read(hosts),
                holds_block(hosts),
                self.process_watcher.running(),
            ));
            Plan { steps, record: None, replacement, addition: None, outcome: Ok(state) }
        }
    }

    /// Plans the lifting of the lock whatever time is left, where `hosts` is
    /// what reading the hosts file gave.
    ///
    /// The slot is emptied first. A hosts file that could not be read or
    /// replaced ends the command with that error, though the timer is gone
    /// by then; the watcher is stopped once the file is replaced.
    pub fn emergency_unlock(&self, hosts: Result<&str, &str>) -> (plan: Plan)
        ensures
            plan.wf(),
            plan.steps@ == emergency_unlock_steps(was_read(hosts)),
            plan.record is None,
            plan.addition is None,
            match hosts {
                Ok(content) => {
                    &&& text_of(plan.replacement) == Some(unblocked(content@))
                    &&& plan.outcome matches Ok(state)
                    &&& state == unlocked_state()
                },
                Err(cause) => {
                    &&& plan.replacement is None
                    &&& plan.outcome matches Err(error)
                    &&& is_failure(error, FailureKind::HostsRead, cause@)
                },
            },
    {
        let timer = self.timelock.clear_lock();
        let mut steps: Vec<Step> = Vec::new();
        push_steps(&mut steps, &timer.steps);
        let change = self.hosts_blocker.unblock(hosts);
        push_steps(&mut steps, &change.steps);
        match change.outcome {
            Ok(_) => {
                steps.push(Step::may(Effect::StopWatcher));
                assert(steps@ =~= emergency_unlock_steps(true));
                Plan {
                    steps,
                    record: None,
                    replacement: change.replacement,
                    addition: None,
                    outcome: Ok(
                        LockState { is_locked: false, unlock_time: None, remaining_seconds: 0 },
                    ),
                }
            },
            Err(error) => {
                assert(steps@ =~= emergency_unlock_steps(false));
                Plan {
                    steps,
                    record: None,
                    replacement: None,
                    addition: None,
                    outcome: Err(LockError::Hosts(error)),
                }
            },
        }
    }
}

} // verus!
