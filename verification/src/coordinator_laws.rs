//! What the commands bring about, stated over a model of what they act on:
//! the timer's slot, the hosts file, the watcher.

use crate::coordinator::{
    emergency_unlock_steps, lift_steps, reconcile_steps, resume_steps, stale_state,
    start_lock_steps,
};
use crate::hosts::{block_entries, block_steps, blocked, has_block, unblocked};
use crate::hosts_laws::{lemma_blocked_holds_block, lemma_unblocked_holds_no_block};
use crate::steps::{may, must, or_settle, passed_over, Effect, FailureKind, OnFailure, Step};
use crate::timelock::{
    has_expired, in_range, is_before, lemma_started_lock_is_active, lock_state, minutes_after,
    nanos_between, rfc3339_text, stored_instant, unlocked_state, LockState, Timestamp,
    NANOS_PER_SEC,
};
use vstd::prelude::*;

verus! {

/// What the commands act on.
pub struct World {
    /// The text in the timer's slot, if it holds one.
    pub slot: Option<Seq<char>>,
    /// The text of the hosts file.
    pub hosts: Seq<char>,
    /// Whether the watcher runs.
    pub watching: bool,
    /// Whether the program is started with the system.
    pub autostart: bool,
}

/// The texts that the steps of a plan write.
pub struct Texts {
    pub record: Option<Seq<char>>,
    pub replacement: Option<Seq<char>>,
    pub addition: Option<Seq<char>>,
}

/// The world after the step `effect` has succeeded in `world`.
pub open spec fn effect_on(world: World, effect: Effect, texts: Texts) -> World {
    match effect {
        Effect::SaveRecord => World { slot: texts.record, ..world },
        Effect::DeleteRecord => World { slot: None, ..world },
        Effect::ReplaceHosts => match texts.replacement {
            Some(text) => World { hosts: text, ..world },
            None => world,
        },
        Effect::AppendHosts => match texts.addition {
            Some(text) => World { hosts: world.hosts + text, ..world },
            None => world,
        },
        Effect::StartWatcher => World { watching: true, ..world },
        Effect::StopWatcher => World { watching: false, ..world },
        Effect::EnableAutostart => World { autostart: true, ..world },
        Effect::ProbeHosts => world,
        Effect::OpenHosts => world,
        Effect::FlushDns => world,
    }
}

/// The world after all of `steps` have succeeded in `world`, one after the
/// other.
pub open spec fn run(world: World, steps: Seq<Step>, texts: Texts) -> World
    decreases steps.len(),
{
    if steps.len() == 0 {
        world
    } else {
        effect_on(run(world, steps.drop_last(), texts), steps.last().effect, texts)
    }
}

/// How a command ends.
pub enum Ending {
    /// All its steps are taken or passed over: it reports what the plan
    /// holds as its result.
    Done,
    /// A step failed that ends it with an error of this kind.
    Failed(FailureKind),
    /// A step failed that ends it with this state as its result.
    Settled(LockState),
}

/// The world after the steps of a plan from position `at` on are carried out
/// in `world`, where the steps whose effect is in `failing` fail and the
/// others succeed, and how the command ends.
pub open spec fn run_failing(
    world: World,
    steps: Seq<Step>,
    texts: Texts,
    failing: Set<Effect>,
    at: int,
) -> (World, Ending)
    decreases steps.len() - at,
{
    if at < 0 || at >= steps.len() {
        (world, Ending::Done)
    } else if !failing.contains(steps[at].effect) {
        run_failing(effect_on(world, steps[at].effect, texts), steps, texts, failing, at + 1)
    } else {
        match steps[at].on_failure {
            OnFailure::Fail(kind) => (world, Ending::Failed(kind)),
            OnFailure::Skip(skipped) => run_failing(
                world,
                steps,
                texts,
                failing,
                if at + 1 + skipped <= steps.len() {
                    at + 1 + skipped
                } else {
                    steps.len() as int
                },
            ),
            OnFailure::Settle(state) => (world, Ending::Settled(state)),
        }
    }
}

/// Whether the lock is enforced in `world`: the block stands in the hosts
/// file and the watcher runs.
pub open spec fn enforced(world: World) -> bool {
    has_block(world.hosts) && world.watching
}

/// Whether nothing of the lock is enforced in `world`: the hosts file holds
/// no block and the watcher does not run.
pub open spec fn lifted(world: World) -> bool {
    !has_block(world.hosts) && !world.watching
}

/// The texts that a change to the hosts file in `world` writes, where it
/// puts the block in: the file's text without its block where it holds one,
/// and the text of the block.
pub open spec fn writes_block(texts: Texts, world: World) -> bool {
    &&& texts.replacement == if has_block(world.hosts) {
        Some(unblocked(world.hosts))
    } else {
        None
    }
    &&& texts.addition == Some(block_entries())
}

/// The text that a change to the hosts file in `world` writes, where it
/// takes the block out of a file that holds one.
pub open spec fn writes_unblocked(texts: Texts, world: World) -> bool {
    texts.replacement == if has_block(world.hosts) {
        Some(unblocked(world.hosts))
    } else {
        None
    }
}

/// Whether one of the steps that change the hosts file for a new block is
/// among `failing`.
pub open spec fn block_fails(failing: Set<Effect>, had_block: bool) -> bool {
    ||| had_block && failing.contains(Effect::ReplaceHosts)
    ||| failing.contains(Effect::ProbeHosts)
    ||| failing.contains(Effect::OpenHosts)
    ||| failing.contains(Effect::AppendHosts)
}

/// Running one more step is running the steps before it and then that step.
pub proof fn lemma_run_push(world: World, steps: Seq<Step>, step: Step, texts: Texts)
    ensures
        run(world, steps.push(step), texts) == effect_on(
            run(world, steps, texts),
            step.effect,
            texts,
        ),
{
    assert(steps.push(step).drop_last() =~= steps);
}

/// Running two runs of steps one after the other is running the first and
/// then, from where it ends, the second.
pub proof fn lemma_run_concat(world: World, first: Seq<Step>, second: Seq<Step>, texts: Texts)
    ensures
        run(world, first + second, texts) == run(run(world, first, texts), second, texts),
    decreases second.len(),
{
    if second.len() == 0 {
        assert(first + second =~= first);
    } else {
        lemma_run_concat(world, first, second.drop_last(), texts);
        assert((first + second).drop_last() =~= first + second.drop_last());
    }
}

/// Where every step succeeds, it makes no difference whether failures are
/// passed over.
pub proof fn lemma_run_passed_over(world: World, steps: Seq<Step>, texts: Texts)
    ensures
        run(world, passed_over(steps), texts) == run(world, steps, texts),
{
    lemma_run_same_effects(world, passed_over(steps), steps, texts);
}

/// Steps with the same effects lead to the same world, where every step
/// succeeds.
pub proof fn lemma_run_same_effects(world: World, a: Seq<Step>, b: Seq<Step>, texts: Texts)
    requires
        a.len() == b.len(),
        forall|i: int| 0 <= i < a.len() ==> a[i].effect == b[i].effect,
    ensures
        run(world, a, texts) == run(world, b, texts),
    decreases a.len(),
{
    if a.len() > 0 {
        lemma_run_same_effects(world, a.drop_last(), b.drop_last(), texts);
    }
}

/// Where nothing fails, the steps from `at` on are all carried out.
pub proof fn lemma_run_failing_nothing(world: World, steps: Seq<Step>, texts: Texts, at: int)
    requires
        0 <= at <= steps.len(),
    ensures
        run_failing(world, steps, texts, Set::empty(), at) == (
            run(world, steps.skip(at), texts),
            Ending::Done,
        ),
    decreases steps.len() - at,
{
    let rest = steps.skip(at);
    if at < steps.len() {
        let next = effect_on(world, steps[at].effect, texts);
        lemma_run_failing_nothing(next, steps, texts, at + 1);
        let first = Seq::<Step>::empty().push(steps[at]);
        lemma_run_push(world, Seq::empty(), steps[at], texts);
        lemma_run_concat(world, first, steps.skip(at + 1), texts);
        assert(first + steps.skip(at + 1) =~= rest);
    }
}

/// The steps that put the block in leave the hosts file as `blocked` says,
/// and the rest of the world as it was.
pub proof fn lemma_block_steps_block(world: World, texts: Texts)
    requires
        writes_block(texts, world),
    ensures
        run(world, block_steps(has_block(world.hosts)), texts) == (World {
            hosts: blocked(world.hosts),
            ..world
        }),
{
    reveal_with_fuel(run, 7);
    let steps = block_steps(has_block(world.hosts));
    if has_block(world.hosts) {
        assert(steps.drop_last().drop_last().drop_last().drop_last().drop_last().drop_last().len()
            == 0);
    } else {
        assert(steps.drop_last().drop_last().drop_last().drop_last().len() == 0);
    }
}

/// The steps that lift what is still enforced leave nothing enforced, and
/// the timer's slot as it was.
pub proof fn lemma_lift_steps_lift(world: World, texts: Texts)
    requires
        writes_unblocked(texts, world),
    ensures
        lifted(run(world, lift_steps(has_block(world.hosts), world.watching), texts)),
        run(world, lift_steps(has_block(world.hosts), world.watching), texts).slot == world.slot,
{
    reveal_with_fuel(run, 4);
    let had_block = has_block(world.hosts);
    let steps = lift_steps(had_block, world.watching);
    lemma_unblocked_holds_no_block(world.hosts);
    if had_block {
        assert(steps.drop_last().drop_last().drop_last().len() == 0);
    } else if world.watching {
        assert(steps.drop_last().len() == 0);
    }
}

/// Starting a lock, where the hosts file was read and every step succeeds,
/// stores the timer and enforces the lock: the hosts file holds the block
/// and the watcher runs.
pub proof fn lemma_start_lock_enforces(world: World, texts: Texts)
    requires
        writes_block(texts, world),
    ensures
        run(world, start_lock_steps(true, has_block(world.hosts)), texts).slot == texts.record,
        run(world, start_lock_steps(true, has_block(world.hosts)), texts).hosts == blocked(
            world.hosts,
        ),
        enforced(run(world, start_lock_steps(true, has_block(world.hosts)), texts)),
{
    let had_block = has_block(world.hosts);
    let save = seq![must(Effect::SaveRecord, FailureKind::Storage)];
    let watch = seq![may(Effect::StartWatcher)];
    let stored = World { slot: texts.record, ..world };
    assert(save =~= Seq::<Step>::empty().push(save[0]));
    lemma_run_push(world, Seq::empty(), save[0], texts);
    lemma_block_steps_block(stored, texts);
    assert(watch =~= Seq::<Step>::empty().push(watch[0]));
    lemma_run_push(run(stored, block_steps(had_block), texts), Seq::empty(), watch[0], texts);
    lemma_run_concat(stored, block_steps(had_block), watch, texts);
    lemma_run_concat(world, save, block_steps(had_block) + watch, texts);
    lemma_blocked_holds_block(world.hosts);
}

/// A lock of a positive number of minutes that is started at `start`, where
/// the hosts file was read and every step succeeds, and whose state is read
/// at `now`, not before `start` and a whole second or more before its end,
/// is reported as active, with at least one and at most all of its seconds
/// left, and is enforced. This holds where the text that is stored for the
/// end of the lock reads back as that instant.
pub proof fn lemma_start_lock_then_read(
    world: World,
    texts: Texts,
    start: Timestamp,
    minutes: int,
    now: Timestamp,
)
    requires
        start.wf(),
        now.wf(),
        minutes > 0,
        in_range(start.secs + 60 * minutes),
        !is_before(now, start),
        nanos_between(now, minutes_after(start, minutes)) >= NANOS_PER_SEC,
        texts.record == Some(
            rfc3339_text(minutes_after(start, minutes).secs, minutes_after(start, minutes).nanos),
        ),
        stored_instant(texts.record) == Some(minutes_after(start, minutes)),
        writes_block(texts, world),
    ensures
        ({
            let after = run(world, start_lock_steps(true, has_block(world.hosts)), texts);
            let told = lock_state(stored_instant(after.slot), now);
            &&& told.is_locked
            &&& 0 < told.remaining_seconds <= minutes * 60
            &&& enforced(after)
        }),
{
    lemma_start_lock_enforces(world, texts);
    lemma_started_lock_is_active(start, minutes, now);
}

/// Lifting the lock by hand, where the hosts file was read and every step
/// succeeds, leaves no lock behind, whatever time was left on it: the slot is
/// empty, so that every later reading reports no lock, the hosts file holds
/// no block and the watcher does not run.
pub proof fn lemma_emergency_unlock_lifts(world: World, texts: Texts, later: Timestamp)
    requires
        texts.replacement == Some(unblocked(world.hosts)),
    ensures
        run(world, emergency_unlock_steps(true), texts).slot is None,
        lock_state(stored_instant(run(world, emergency_unlock_steps(true), texts).slot), later)
            == unlocked_state(),
        run(world, emergency_unlock_steps(true), texts).hosts == unblocked(world.hosts),
        lifted(run(world, emergency_unlock_steps(true), texts)),
{
    reveal_with_fuel(run, 5);
    let steps = emergency_unlock_steps(true);
    assert(steps.drop_last().drop_last().drop_last().drop_last().len() == 0);
    lemma_unblocked_holds_no_block(world.hosts);
}

/// Reading the state once the timer has run out, where every step succeeds,
/// empties the slot and lifts what is still enforced; a reading after that
/// finds nothing left to do.
pub proof fn lemma_expired_lock_is_lifted(world: World, texts: Texts, now: Timestamp)
    requires
        has_expired(stored_instant(world.slot), now),
        writes_unblocked(texts, world),
    ensures
        ({
            let steps = reconcile_steps(
                stored_instant(world.slot),
                has_block(world.hosts),
                world.watching,
            );
            let after = run(world, steps, texts);
            &&& after.slot is None
            &&& lifted(after)
            &&& reconcile_steps(stored_instant(after.slot), has_block(after.hosts), after.watching)
                == Seq::<Step>::empty()
        }),
{
    let end = stored_instant(world.slot)->0;
    let had_block = has_block(world.hosts);
    let clear = seq![or_settle(Effect::DeleteRecord, stale_state(end))];
    let cleared = World { slot: None, ..world };
    assert(clear =~= Seq::<Step>::empty().push(clear[0]));
    lemma_run_push(world, Seq::empty(), clear[0], texts);
    lemma_lift_steps_lift(cleared, texts);
    lemma_run_concat(world, clear, lift_steps(had_block, world.watching), texts);
    let steps = reconcile_steps(stored_instant(world.slot), had_block, world.watching);
    let after = run(world, steps, texts);
    assert(reconcile_steps(stored_instant(after.slot), has_block(after.hosts), after.watching)
        =~= Seq::<Step>::empty());
}

/// Starting the program while a lock is active, where the hosts file was
/// read and every step succeeds, enforces the lock again and leaves the
/// timer as it was, so that a reading at `now` reports the lock.
pub proof fn lemma_resume_enforces_active_lock(world: World, texts: Texts, now: Timestamp)
    requires
        lock_state(stored_instant(world.slot), now).is_locked,
        writes_block(texts, world),
    ensures
        ({
            let steps = resume_steps(
                true,
                stored_instant(world.slot),
                true,
                has_block(world.hosts),
                world.watching,
            );
            let after = run(world, steps, texts);
            &&& after.slot == world.slot
            &&& lock_state(stored_instant(after.slot), now).is_locked
            &&& enforced(after)
            &&& after.autostart
        }),
{
    let had_block = has_block(world.hosts);
    let put_in = passed_over(block_steps(had_block));
    let tail = seq![may(Effect::StartWatcher), may(Effect::EnableAutostart)];
    assert(tail =~= Seq::<Step>::empty().push(tail[0]).push(tail[1]));
    lemma_block_steps_block(world, texts);
    lemma_run_passed_over(world, block_steps(had_block), texts);
    let put = run(world, put_in, texts);
    lemma_run_push(put, Seq::empty(), tail[0], texts);
    lemma_run_push(put, Seq::<Step>::empty().push(tail[0]), tail[1], texts);
    lemma_run_concat(world, put_in, tail, texts);
    lemma_blocked_holds_block(world.hosts);
}

/// Starting the program without an active lock, where the hosts file was
/// read and every step succeeds, leaves nothing of a lock enforced, and
/// empties a slot whose instant is reached.
pub proof fn lemma_resume_lifts_without_lock(world: World, texts: Texts, now: Timestamp)
    requires
        !lock_state(stored_instant(world.slot), now).is_locked,
        writes_unblocked(texts, world),
    ensures
        ({
            let steps = resume_steps(
                false,
                stored_instant(world.slot),
                true,
                has_block(world.hosts),
                world.watching,
            );
            let after = run(world, steps, texts);
            &&& lifted(after)
            &&& stored_instant(world.slot) is Some ==> after.slot is None
        }),
{
    let had_block = has_block(world.hosts);
    let lift = lift_steps(had_block, world.watching);
    if stored_instant(world.slot) is Some {
        let clear = seq![may(Effect::DeleteRecord)];
        let cleared = World { slot: None, ..world };
        assert(clear =~= Seq::<Step>::empty().push(clear[0]));
        lemma_run_push(world, Seq::empty(), clear[0], texts);
        lemma_lift_steps_lift(cleared, texts);
        lemma_run_concat(world, clear, lift, texts);
    } else {
        lemma_lift_steps_lift(world, texts);
        assert(Seq::<Step>::empty() + lift =~= lift);
    }
}

/// Starting a lock, whatever fails: a store that fails ends the command with
/// that error and nothing is changed. Once the timer is stored it stays
/// stored; a failure at the hosts file then ends the command with an error,
/// never with success, and the watcher is left as it was. Where neither
/// fails, the block stands in the hosts file at the end, and the watcher
/// runs if it could be started.
pub proof fn lemma_start_lock_whatever_fails(world: World, texts: Texts, failing: Set<Effect>)
    requires
        writes_block(texts, world),
    ensures
        ({
            let had_block = has_block(world.hosts);
            let (after, ending) = run_failing(
                world,
                start_lock_steps(true, had_block),
                texts,
                failing,
                0,
            );
            &&& failing.contains(Effect::SaveRecord) ==> ending == Ending::Failed(
                FailureKind::Storage,
            ) && after == world
            &&& !failing.contains(Effect::SaveRecord) ==> after.slot == texts.record
            &&& !failing.contains(Effect::SaveRecord) && block_fails(failing, had_block)
                ==> ending is Failed && after.watching == world.watching
            &&& !failing.contains(Effect::SaveRecord) && !block_fails(failing, had_block)
                ==> ending is Done && has_block(after.hosts) && (!failing.contains(
                Effect::StartWatcher,
            ) ==> after.watching)
        }),
{
    reveal_with_fuel(run_failing, 10);
    lemma_blocked_holds_block(world.hosts);
    let had_block = has_block(world.hosts);
    let steps = start_lock_steps(true, had_block);
    let (after, ending) = run_failing(world, steps, texts, failing, 0);
    if !failing.contains(Effect::SaveRecord) && !block_fails(failing, had_block) {
        assert(after.hosts == blocked(world.hosts));
    }
}

/// Lifting the lock by hand, whatever fails: a store that fails ends the
/// command with that error and nothing is changed. Once the slot is emptied
/// it stays empty; a hosts file that cannot be replaced then ends the
/// command with an error, never with success. Where neither fails, no block
/// stands in the hosts file at the end, and the watcher does not run if it
/// could be stopped.
pub proof fn lemma_emergency_unlock_whatever_fails(
    world: World,
    texts: Texts,
    failing: Set<Effect>,
)
    requires
        texts.replacement == Some(unblocked(world.hosts)),
    ensures
        ({
            let (after, ending) = run_failing(
                world,
                emergency_unlock_steps(true),
                texts,
                failing,
                0,
            );
            &&& failing.contains(Effect::DeleteRecord) ==> ending == Ending::Failed(
                FailureKind::Storage,
            ) && after == world
            &&& !failing.contains(Effect::DeleteRecord) ==> after.slot is None
            &&& !failing.contains(Effect::DeleteRecord) && failing.contains(Effect::ReplaceHosts)
                ==> ending == Ending::Failed(FailureKind::PermissionDenied) && after.hosts
                == world.hosts && after.watching == world.watching
            &&& !failing.contains(Effect::DeleteRecord) && !failing.contains(Effect::ReplaceHosts)
                ==> ending is Done && !has_block(after.hosts) && (!failing.contains(
                Effect::StopWatcher,
            ) ==> !after.watching)
        }),
{
    reveal_with_fuel(run_failing, 6);
    lemma_unblocked_holds_no_block(world.hosts);
}

/// Reading the state where no lock is active, whatever fails: the command
/// never ends with an error. Where a slot whose instant is reached cannot be
/// emptied, it reports the lock as still active and changes nothing. Else
/// the slot is empty at the end, the watcher does not run if it could be
/// stopped, and the hosts file holds no block if it could be replaced.
pub proof fn lemma_reconcile_whatever_fails(
    world: World,
    texts: Texts,
    failing: Set<Effect>,
    unlock: Option<Timestamp>,
)
    requires
        unlock is None ==> world.slot is None,
        writes_unblocked(texts, world),
    ensures
        ({
            let steps = reconcile_steps(unlock, has_block(world.hosts), world.watching);
            let (after, ending) = run_failing(world, steps, texts, failing, 0);
            let stuck = unlock is Some && failing.contains(Effect::DeleteRecord);
            &&& !(ending is Failed)
            &&& stuck ==> ending == Ending::Settled(stale_state(unlock->0)) && after == world
            &&& !stuck ==> ending is Done && after.slot is None && (!failing.contains(
                Effect::StopWatcher,
            ) ==> !after.watching) && (!failing.contains(Effect::ReplaceHosts) ==> !has_block(
                after.hosts,
            ))
        }),
{
    reveal_with_fuel(run_failing, 6);
    lemma_unblocked_holds_no_block(world.hosts);
}

/// Starting the program while a lock is active, whatever fails: the command
/// runs through all its steps, the timer stays as it was, and the watcher
/// runs at the end if it could be started, also where the hosts file could
/// not be changed.
pub proof fn lemma_resume_whatever_fails(world: World, texts: Texts, failing: Set<Effect>)
    requires
        writes_block(texts, world),
    ensures
        ({
            let had_block = has_block(world.hosts);
            let steps = resume_steps(
                true,
                stored_instant(world.slot),
                true,
                had_block,
                world.watching,
            );
            let (after, ending) = run_failing(world, steps, texts, failing, 0);
            &&& ending is Done
            &&& after.slot == world.slot
            &&& !failing.contains(Effect::StartWatcher) ==> after.watching
            &&& !block_fails(failing, had_block) ==> has_block(after.hosts)
        }),
{
    reveal_with_fuel(run_failing, 10);
    lemma_blocked_holds_block(world.hosts);
    let had_block = has_block(world.hosts);
    let steps = resume_steps(true, stored_instant(world.slot), true, had_block, world.watching);
    let (after, ending) = run_failing(world, steps, texts, failing, 0);
    if !block_fails(failing, had_block) {
        assert(after.hosts == blocked(world.hosts));
    }
}

} // verus!
