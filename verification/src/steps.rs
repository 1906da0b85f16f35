//! Steps: what the program around this library does for a command, one thing
//! after the other, and what follows when a step fails.
//!
//! The library holds no file and no database. It says which steps are to be
//! taken; the program takes them in order and comes back with each failure.

use crate::timelock::LockState;
use vstd::prelude::*;

verus! {

/// One step of a command. The texts that a step writes are held by the plan
/// that the step belongs to.
#[derive(Clone, Copy, Debug, PartialEq, Eq, Structural)]
pub enum Effect {
    /// Store the plan's `record` in the timer's slot, in place of what is
    /// there.
    SaveRecord,
    /// Empty the timer's slot.
    DeleteRecord,
    /// Replace the text of the hosts file by the plan's `replacement`.
    ReplaceHosts,
    /// Read the hosts file. What it reads is not looked at.
    ProbeHosts,
    /// Open the hosts file for adding to its end.
    OpenHosts,
    /// Add the plan's `addition` at the end of the hosts file.
    AppendHosts,
    /// Have the system forget the names it has resolved.
    FlushDns,
    /// Set the watcher running, and launch its loop if it did not run.
    StartWatcher,
    /// Stop the watcher.
    StopWatcher,
    /// Have the program started when the system starts.
    EnableAutostart,
}

/// The kind of error that a failed step ends its command with.
#[derive(Clone, Copy, Debug, PartialEq, Eq, Structural)]
pub enum FailureKind {
    /// The timer's store failed.
    Storage,
    /// The hosts file could not be read, or a write to it broke off.
    HostsRead,
    /// The hosts file could not be opened for writing, or not replaced.
    PermissionDenied,
}

/// What follows when a step fails.
#[derive(Clone, Copy, Debug, PartialEq, Eq)]
pub enum OnFailure {
    /// The command ends with an error of this kind.
    Fail(FailureKind),
    /// The command goes on, past this many of the steps that follow.
    Skip(usize),
    /// The command ends and reports this state.
    Settle(LockState),
}

/// A step and what follows when it fails.
#[derive(Clone, Copy, Debug, PartialEq, Eq)]
pub struct Step {
    pub effect: Effect,
    pub on_failure: OnFailure,
}

/// The step `effect` whose failure ends the command with an error of `kind`.
pub open spec fn must(effect: Effect, kind: FailureKind) -> Step {
    Step { effect, on_failure: OnFailure::Fail(kind) }
}

/// The step `effect` whose failure is passed over.
pub open spec fn may(effect: Effect) -> Step {
    Step { effect, on_failure: OnFailure::Skip(0) }
}

/// The step `effect` whose failure also leaves out the `skipped` steps after
/// it.
pub open spec fn or_skip(effect: Effect, skipped: usize) -> Step {
    Step { effect, on_failure: OnFailure::Skip(skipped) }
}

/// The step `effect` whose failure ends the command and has it report
/// `state`.
pub open spec fn or_settle(effect: Effect, state: LockState) -> Step {
    Step { effect, on_failure: OnFailure::Settle(state) }
}

/// `steps` with their failures passed over: a step whose failure would end
/// the command with an error leaves out the steps of `steps` after it
/// instead.
pub open spec fn passed_over(steps: Seq<Step>) -> Seq<Step> {
    Seq::new(
        steps.len(),
        |i: int|
            match steps[i].on_failure {
                OnFailure::Fail(_) => or_skip(steps[i].effect, (steps.len() - 1 - i) as usize),
                _ => steps[i],
            },
    )
}

/// `steps` with their failures settled: a step whose failure would end the
/// command with an error ends it with `state` as its result instead.
pub open spec fn settled(steps: Seq<Step>, state: LockState) -> Seq<Step> {
    Seq::new(
        steps.len(),
        |i: int|
            match steps[i].on_failure {
                OnFailure::Fail(_) => or_settle(steps[i].effect, state),
                _ => steps[i],
            },
    )
}

/// Where the command goes on after the step at `index` of `len` steps has
/// failed and `skipped` more are left out: at the step after them, or at the
/// end.
pub open spec fn skip_target(len: int, index: int, skipped: int) -> int {
    if index + 1 + skipped <= len {
        index + 1 + skipped
    } else {
        len
    }
}

/// How a command goes on after a step has failed.
#[derive(Clone, Copy, Debug, PartialEq, Eq)]
pub enum AfterFailure {
    /// With the step at this position; the command is through its steps
    /// where that is their number.
    Continue(usize),
    /// Not at all: it ends with an error of this kind.
    Fail(FailureKind),
    /// Not at all: it reports this state.
    Settle(LockState),
}

impl Step {
    /// The step `effect` whose failure ends the command with an error of
    /// `kind`.
    pub fn must(effect: Effect, kind: FailureKind) -> (step: Step)
        ensures
            step == must(effect, kind),
    {
        Step { effect, on_failure: OnFailure::Fail(kind) }
    }

    /// The step `effect` whose failure is passed over.
    pub fn may(effect: Effect) -> (step: Step)
        ensures
            step == may(effect),
    {
        Step { effect, on_failure: OnFailure::Skip(0) }
    }

    /// The step `effect` whose failure ends the command and has it report
    /// `state`.
    pub fn or_settle(effect: Effect, state: LockState) -> (step: Step)
        ensures
            step == or_settle(effect, state),
    {
        Step { effect, on_failure: OnFailure::Settle(state) }
    }
}

/// How a command with the steps `steps` goes on after the step at `index`
/// has failed.
pub fn after_failure(steps: &Vec<Step>, index: usize) -> (next: AfterFailure)
    requires
        index < steps.len(),
    ensures
        match steps[index as int].on_failure {
            OnFailure::Fail(kind) => next == AfterFailure::Fail(kind),
            OnFailure::Skip(skipped) => next matches AfterFailure::Continue(at) && at
                == skip_target(steps.len() as int, index as int, skipped as int),
            OnFailure::Settle(state) => next == AfterFailure::Settle(state),
        },
{
    match steps[index].on_failure {
        OnFailure::Fail(kind) => AfterFailure::Fail(kind),
        OnFailure::Skip(skipped) => {
            let rest: usize = steps.len() - index - 1;
            if skipped <= rest {
                AfterFailure::Continue(index + 1 + skipped)
            } else {
                AfterFailure::Continue(steps.len())
            }
        },
        OnFailure::Settle(state) => AfterFailure::Settle(state),
    }
}

/// Puts the steps of `more` at the end of `steps`.
pub fn push_steps(steps: &mut Vec<Step>, more: &Vec<Step>)
    ensures
        final(steps)@ == old(steps)@ + more@,
{
    let mut i: usize = 0;
    while i < more.len()
        invariant
            i <= more.len(),
            steps@ == old(steps)@ + more@.take(i as int),
        decreases more.len() - i,
    {
        steps.push(more[i]);
        assert(more@.take(i + 1) =~= more@.take(i as int).push(more@[i as int]));
        i += 1;
    }
    assert(more@.take(i as int) =~= more@);
}

/// `steps` with their failures settled by `state`.
pub fn settle(steps: &Vec<Step>, state: LockState) -> (out: Vec<Step>)
    ensures
        out@ == settled(steps@, state),
{
    let mut out: Vec<Step> = Vec::new();
    let mut i: usize = 0;
    while i < steps.len()
        invariant
            i <= steps.len(),
            out@ == settled(steps@, state).take(i as int),
        decreases steps.len() - i,
    {
        let step = match steps[i].on_failure {
            OnFailure::Fail(_) => Step {
                effect: steps[i].effect,
                on_failure: OnFailure::Settle(state),
            },
            _ => steps[i],
        };
        out.push(step);
        assert(out@ =~= settled(steps@, state).take(i + 1));
        i += 1;
    }
    assert(settled(steps@, state).take(i as int) =~= settled(steps@, state));
    out
}

/// `steps` with their failures passed over.
pub fn pass_over(steps: &Vec<Step>) -> (out: Vec<Step>)
    ensures
        out@ == passed_over(steps@),
{
    let mut out: Vec<Step> = Vec::new();
    let mut i: usize = 0;
    while i < steps.len()
        invariant
            i <= steps.len(),
            out@ == passed_over(steps@).take(i as int),
        decreases steps.len() - i,
    {
        let step = match steps[i].on_failure {
            OnFailure::Fail(_) => Step {
                effect: steps[i].effect,
                on_failure: OnFailure::Skip(steps.len() - 1 - i),
            },
            _ => steps[i],
        };
        out.push(step);
        assert(out@ =~= passed_over(steps@).take(i + 1));
        i += 1;
    }
    assert(passed_over(steps@).take(i as int) =~= passed_over(steps@));
    out
}

} // verus!
