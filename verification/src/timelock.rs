//! The lock's timer: one stored instant at which the lock ends, and the state
//! that follows from it and the clock.
//!
//! `LockRecord` is the slot with its three operations: start, read, clear.
//! `TimeLock` stands in front of the store: it derives the state from what
//! was read and plans what is written.

use crate::steps::{must, Effect, FailureKind, Step};
use crate::text::str_of;
use chrono::{DateTime, Utc};
use vstd::prelude::*;

verus! {

/// The instants that the library works with lie within this many seconds of
/// 1970-01-01T00:00:00Z, on either side: some 31,000 years.
pub const MAX_SECS: i64 = 1_000_000_000_000;

/// The nanoseconds of one second.
pub const NANOS_PER_SEC: u32 = 1_000_000_000;

/// An instant: whole seconds since 1970-01-01T00:00:00Z, leap seconds not
/// counted, and the nanoseconds since that second began.
#[derive(Clone, Copy, Debug, PartialEq, Eq, Structural)]
pub struct Timestamp {
    pub secs: i64,
    pub nanos: u32,
}

/// Whether `secs` seconds since 1970 lie in the range that the library works
/// with.
pub open spec fn in_range(secs: int) -> bool {
    -MAX_SECS <= secs <= MAX_SECS
}

/// Whether `a` is earlier than `b`.
pub open spec fn is_before(a: Timestamp, b: Timestamp) -> bool {
    a.secs < b.secs || (a.secs == b.secs && a.nanos < b.nanos)
}

/// The nanoseconds from `from` to `to`; negative where `to` is the earlier.
pub open spec fn nanos_between(from: Timestamp, to: Timestamp) -> int {
    (to.secs - from.secs) * NANOS_PER_SEC + to.nanos - from.nanos
}

/// The whole seconds from `from` to `to`; negative where `to` is the earlier.
/// What is left of a second does not count, in either direction.
pub open spec fn seconds_between(from: Timestamp, to: Timestamp) -> int {
    if nanos_between(from, to) >= 0 {
        nanos_between(from, to) / (NANOS_PER_SEC as int)
    } else {
        -((-nanos_between(from, to)) / (NANOS_PER_SEC as int))
    }
}

/// The instant `minutes` minutes after `t`, where that is in the library's
/// range.
pub open spec fn minutes_after(t: Timestamp, minutes: int) -> Timestamp
    recommends
        in_range(t.secs + 60 * minutes),
{
    Timestamp { secs: (t.secs + 60 * minutes) as i64, nanos: t.nanos }
}

/// The text that `DateTime::to_rfc3339` of chrono gives for the instant
/// `nanos` nanoseconds after second `secs` since 1970, in UTC.
pub uninterp spec fn rfc3339_text(secs: i64, nanos: u32) -> Seq<char>;

/// The instant that `DateTime::parse_from_rfc3339` of chrono reads from
/// `text`, as seconds since 1970 and nanoseconds since that second began, or
/// `None` where it refuses `text`. For a leap second the nanoseconds are a
/// second or more.
pub uninterp spec fn rfc3339_instant(text: Seq<char>) -> Option<(i64, u32)>;

/// The instant in the library's range that a reading `parsed` of a stored
/// text stands for. A leap second counts as the start of the second after it.
pub open spec fn instant_of(parsed: Option<(i64, u32)>) -> Option<Timestamp> {
    match parsed {
        Some((secs, nanos)) => if nanos >= NANOS_PER_SEC {
            if in_range(secs + 1) {
                Some(Timestamp { secs: (secs + 1) as i64, nanos: 0 })
            } else {
                None
            }
        } else if in_range(secs as int) {
            Some(Timestamp { secs, nanos })
        } else {
            None
        },
        None => None,
    }
}

/// The instant that a stored text stands for, if it stands for one.
pub open spec fn stored_instant(stored: Option<Seq<char>>) -> Option<Timestamp> {
    match stored {
        Some(text) => instant_of(rfc3339_instant(text)),
        None => None,
    }
}

/// The instant `millis` milliseconds after the start of 1970, where that is
/// in the library's range.
pub open spec fn millis_instant(millis: int) -> Option<Timestamp> {
    if in_range(millis / 1000) {
        Some(
            Timestamp {
                secs: (millis / 1000) as i64,
                nanos: ((millis % 1000) * 1_000_000) as u32,
            },
        )
    } else {
        None
    }
}

/// What a caller is told of the lock.
#[derive(Clone, Copy, Debug, PartialEq, Eq)]
pub struct LockState {
    /// Whether the lock is active.
    pub is_locked: bool,
    /// The instant at which the lock ends, while it is active.
    pub unlock_time: Option<Timestamp>,
    /// The whole seconds until the lock ends; 0 where none is active.
    pub remaining_seconds: i64,
}

/// The state without a lock.
pub open spec fn unlocked_state() -> LockState {
    LockState { is_locked: false, unlock_time: None, remaining_seconds: 0 }
}

/// The state at `now` of a timer that ends at `unlock`: locked until `unlock`
/// is reached, with the whole seconds that remain.
pub open spec fn lock_state(unlock: Option<Timestamp>, now: Timestamp) -> LockState {
    match unlock {
        Some(end) => if is_before(now, end) {
            LockState {
                is_locked: true,
                unlock_time: Some(end),
                remaining_seconds: seconds_between(now, end) as i64,
            }
        } else {
            unlocked_state()
        },
        None => unlocked_state(),
    }
}

/// Whether a timer that ends at `unlock` has run out at `now`.
pub open spec fn has_expired(unlock: Option<Timestamp>, now: Timestamp) -> bool {
    unlock matches Some(end) && !is_before(now, end)
}

/// What the slot holds after its state was read at `now`: nothing where its
/// instant was reached, else what it held.
pub open spec fn slot_after_read(unlock: Option<Timestamp>, now: Timestamp) -> Option<Timestamp> {
    if has_expired(unlock, now) {
        None
    } else {
        unlock
    }
}

/// The state that starting a lock of `minutes` minutes at `now` reports.
pub open spec fn started_state(now: Timestamp, minutes: int) -> LockState {
    LockState {
        is_locked: true,
        unlock_time: Some(minutes_after(now, minutes)),
        remaining_seconds: (minutes * 60) as i64,
    }
}

impl Timestamp {
    /// The instant is in the library's range and its nanoseconds are less
    /// than a second.
    pub open spec fn wf(&self) -> bool {
        in_range(self.secs as int) && self.nanos < NANOS_PER_SEC
    }

    /// The instant `secs` seconds and `nanos` nanoseconds after the start of
    /// 1970, if it is in the library's range and `nanos` is less than a
    /// second.
    pub fn new(secs: i64, nanos: u32) -> (t: Option<Timestamp>)
        ensures
            t is Some <==> in_range(secs as int) && nanos < NANOS_PER_SEC,
            t matches Some(t) ==> t.secs == secs && t.nanos == nanos,
    {
        if -MAX_SECS <= secs && secs <= MAX_SECS && nanos < NANOS_PER_SEC {
            Some(Timestamp { secs, nanos })
        } else {
            None
        }
    }

    /// Whether this instant is earlier than `other`.
    pub fn before(&self, other: &Timestamp) -> (earlier: bool)
        ensures
            earlier == is_before(*self, *other),
    {
        self.secs < other.secs || (self.secs == other.secs && self.nanos < other.nanos)
    }

    /// The whole seconds from this instant to `later`; negative where
    /// `later` is the earlier.
    pub fn seconds_until(&self, later: &Timestamp) -> (seconds: i64)
        requires
            self.wf(),
            later.wf(),
        ensures
            seconds == seconds_between(*self, *later),
            !is_before(*later, *self) ==> 0 <= seconds,
    {
        let whole: i64 = later.secs - self.secs;
        if self.before(later) || (self.secs == later.secs && self.nanos == later.nanos) {
            if later.nanos >= self.nanos {
                whole
            } else {
                whole - 1
            }
        } else if later.nanos > self.nanos {
            whole + 1
        } else {
            whole
        }
    }
}

/// `DateTime::to_rfc3339` of chrono, on the instant that
/// `DateTime::from_timestamp` makes of `secs` and `nanos`. The instants that
/// are admitted lie within chrono's range, which reaches some 262,000 years
/// to either side of 1970, so that an instant is made; its text is the named
/// one.
#[verifier::external_body]
fn format_rfc3339(secs: i64, nanos: u32) -> (text: String)
    requires
        in_range(secs as int),
        nanos < NANOS_PER_SEC,
    ensures
        text@ == rfc3339_text(secs, nanos),
{
    DateTime::from_timestamp(secs, nanos).unwrap().to_rfc3339()
}

/// `DateTime::parse_from_rfc3339` of chrono: the instant read from `text`, by
/// `timestamp` and `timestamp_subsec_nanos`, or `None` where chrono refuses
/// the text.
#[verifier::external_body]
fn parse_rfc3339(text: &str) -> (parsed: Option<(i64, u32)>)
    ensures
        parsed == rfc3339_instant(text@),
{
    match DateTime::parse_from_rfc3339(text) {
        Ok(instant) => Some((instant.timestamp(), instant.timestamp_subsec_nanos())),
        Err(_) => None,
    }
}

/// `Utc::now` of chrono: what the system clock reads, by `timestamp` and
/// `timestamp_subsec_nanos`. Nothing is promised of it.
#[verifier::external_body]
fn utc_now() -> (instant: (i64, u32)) {
    let now = Utc::now();
    (now.timestamp(), now.timestamp_subsec_nanos())
}

/// `DateTime::from_timestamp_millis` of chrono, by `timestamp` and
/// `timestamp_subsec_nanos`: the instant `millis` milliseconds after the start
/// of 1970, whole seconds rounded down, or `None` where it is out of chrono's
/// range. That range reaches some 262,000 years to either side of 1970, so
/// within the library's range an instant is given.
#[verifier::external_body]
fn instant_of_millis(millis: i64) -> (instant: Option<(i64, u32)>)
    ensures
        instant matches Some((secs, nanos)) ==> secs * 1000 + nanos / 1_000_000 == millis && nanos
            % 1_000_000 == 0 && nanos < NANOS_PER_SEC,
        in_range(millis / 1000) ==> instant is Some,
{
    match DateTime::from_timestamp_millis(millis) {
        Some(instant) => Some((instant.timestamp(), instant.timestamp_subsec_nanos())),
        None => None,
    }
}

impl Timestamp {
    /// The instant `millis` milliseconds after the start of 1970, if it is in
    /// the library's range.
    pub fn from_millis(millis: i64) -> (t: Option<Timestamp>)
        ensures
            t == millis_instant(millis as int),
            t matches Some(t) ==> t.wf(),
    {
        match instant_of_millis(millis) {
            Some((secs, nanos)) => Timestamp::new(secs, nanos),
            None => None,
        }
    }

    /// What the system clock reads, if that is in the library's range.
    pub fn now() -> (t: Option<Timestamp>)
        ensures
            t matches Some(t) ==> t.wf(),
    {
        let (secs, nanos) = utc_now();
        Timestamp::new(secs, nanos)
    }

    /// The instant `minutes` minutes after this one.
    pub fn plus_minutes(&self, minutes: i64) -> (later: Timestamp)
        requires
            self.wf(),
            in_range(self.secs + 60 * minutes),
        ensures
            later == minutes_after(*self, minutes as int),
            later.wf(),
    {
        Timestamp { secs: self.secs + 60 * minutes, nanos: self.nanos }
    }
}

/// The instant in the library's range that a reading of a stored text stands
/// for.
pub fn decode_instant(parsed: Option<(i64, u32)>) -> (t: Option<Timestamp>)
    ensures
        t == instant_of(parsed),
        t matches Some(t) ==> t.wf(),
{
    match parsed {
        Some((secs, nanos)) => {
            if nanos >= NANOS_PER_SEC {
                if secs < MAX_SECS {
                    Timestamp::new(secs + 1, 0)
                } else {
                    None
                }
            } else {
                Timestamp::new(secs, nanos)
            }
        },
        None => None,
    }
}

/// The state at `now` of a timer that ends at `unlock`.
pub fn lock_state_at(unlock: Option<Timestamp>, now: Timestamp) -> (state: LockState)
    requires
        now.wf(),
        unlock matches Some(end) ==> end.wf(),
    ensures
        state == lock_state(unlock, now),
        state.is_locked <==> (unlock matches Some(end) && is_before(now, end)),
        0 <= state.remaining_seconds,
{
    match unlock {
        Some(end) => {
            if now.before(&end) {
                LockState {
                    is_locked: true,
                    unlock_time: Some(end),
                    remaining_seconds: now.seconds_until(&end),
                }
            } else {
                LockState { is_locked: false, unlock_time: None, remaining_seconds: 0 }
            }
        },
        None => LockState { is_locked: false, unlock_time: None, remaining_seconds: 0 },
    }
}

/// The record of the lock: the one slot that holds the instant at which the
/// lock ends. The slot is stored as text; an empty slot, or one whose text
/// stands for no instant, means that no lock is active.
#[derive(Clone, Copy, Debug, PartialEq, Eq)]
pub struct LockRecord {
    /// The instant at which the lock ends, if the slot holds one.
    pub unlock_at: Option<Timestamp>,
}

impl LockRecord {
    /// The instant of the slot, if there is one, is well formed.
    pub open spec fn wf(&self) -> bool {
        self.unlock_at matches Some(end) ==> end.wf()
    }

    /// The record whose slot is stored as `stored`: `None` for an empty slot.
    pub fn new(stored: Option<&str>) -> (lock: LockRecord)
        ensures
            lock.wf(),
            lock.unlock_at == stored_instant(str_of(stored)),
    {
        let parsed = match stored {
            Some(text) => parse_rfc3339(text),
            None => None,
        };
        LockRecord { unlock_at: decode_instant(parsed) }
    }

    /// The text to store for the slot: `None` for an empty slot.
    pub fn to_stored(&self) -> (stored: Option<String>)
        requires
            self.wf(),
        ensures
            match self.unlock_at {
                Some(end) => stored matches Some(text) && text@ == rfc3339_text(
                    end.secs,
                    end.nanos,
                ),
                None => stored is None,
            },
    {
        match self.unlock_at {
            Some(end) => Some(format_rfc3339(end.secs, end.nanos)),
            None => None,
        }
    }

    /// Starts a lock of `duration_minutes` minutes at `now`. The slot then
    /// holds the instant that many minutes after `now`, whatever it held
    /// before: a lock that is running is replaced, not prolonged. The state
    /// reported counts the full duration.
    pub fn start_lock(&mut self, now: Timestamp, duration_minutes: i64) -> (state: LockState)
        requires
            now.wf(),
            in_range(now.secs + 60 * duration_minutes),
        ensures
            state == started_state(now, duration_minutes as int),
            final(self).unlock_at == Some(minutes_after(now, duration_minutes as int)),
            final(self).wf(),
    {
        let unlock_time = now.plus_minutes(duration_minutes);
        self.unlock_at = Some(unlock_time);
        LockState {
            is_locked: true,
            unlock_time: Some(unlock_time),
            remaining_seconds: duration_minutes * 60,
        }
    }

    /// The state of the lock at `now`: locked while `now` is before the
    /// slot's instant, with the whole seconds that remain. A slot whose
    /// instant is reached is emptied, and the state is then unlocked;
    /// otherwise the slot stays as it is.
    pub fn get_state(&mut self, now: Timestamp) -> (state: LockState)
        requires
            now.wf(),
            old(self).wf(),
        ensures
            state == lock_state(old(self).unlock_at, now),
            final(self).unlock_at == slot_after_read(old(self).unlock_at, now),
            final(self).wf(),
    {
        let state = lock_state_at(self.unlock_at, now);
        if !state.is_locked {
            self.clear_lock();
        }
        state
    }

    /// Empties the slot, whatever it holds.
    pub fn clear_lock(&mut self)
        ensures
            final(self).unlock_at is None,
    {
        self.unlock_at = None;
    }

    /// Whether the lock is active at `now`. Empties a slot whose instant is
    /// reached, as `get_state` does.
    pub fn is_locked(&mut self, now: Timestamp) -> (locked: bool)
        requires
            now.wf(),
            old(self).wf(),
        ensures
            locked == lock_state(old(self).unlock_at, now).is_locked,
            final(self).unlock_at == slot_after_read(old(self).unlock_at, now),
            final(self).wf(),
    {
        self.get_state(now).is_locked
    }
}

/// The store of the timer failed. Holds the cause as the store gave it.
#[derive(Debug)]
pub struct StorageError {
    pub cause: String,
}

impl StorageError {
    /// The words in which the error is told to the user: the cause.
    pub fn message(&self) -> (text: String)
        ensures
            text@ == self.cause@,
    {
        self.cause.clone()
    }
}

/// The slot as it was read from the store: `record` is what reading it gave,
/// its text if it holds one, or the cause of the failure. A store that
/// failed gives no slot.
pub open spec fn slot_read(record: Result<Option<&str>, &str>) -> Option<Seq<char>> {
    match record {
        Ok(stored) => str_of(stored),
        Err(_) => None,
    }
}

/// The steps that store the timer: the slot is written, which fails as a
/// failure of the store.
pub open spec fn save_steps() -> Seq<Step> {
    seq![must(Effect::SaveRecord, FailureKind::Storage)]
}

/// The steps that empty the slot: the slot is deleted, which fails as a
/// failure of the store.
pub open spec fn clear_steps() -> Seq<Step> {
    seq![must(Effect::DeleteRecord, FailureKind::Storage)]
}

/// An operation on the stored timer: the steps to take on the store, the
/// text they write, and what the operation reports where none of the steps
/// ends it.
#[derive(Debug)]
pub struct TimerPlan {
    /// The steps, in the order in which they are taken.
    pub steps: Vec<Step>,
    /// The text that `SaveRecord` stores.
    pub record: Option<String>,
    /// The instant that the slot held, where it is reached and the slot is
    /// to be emptied.
    pub expired: Option<Timestamp>,
    /// The state of the lock, or the failure of the store.
    pub outcome: Result<LockState, StorageError>,
}

/// The timer of the lock, in front of its store. It plans what is written to
/// the store and derives the state of the lock from what was read.
pub struct TimeLock {}

impl TimeLock {
    /// The timer.
    pub fn new() -> (timer: TimeLock) {
        TimeLock {  }
    }

    /// Plans the start of a lock of `duration_minutes` minutes at `now`: the
    /// instant that many minutes after `now` is stored in the slot, in place
    /// of what is there, so that a lock that is running is replaced, not
    /// prolonged. The state reported counts the full duration. A store that
    /// fails ends the operation with that failure.
    pub fn start_lock(&self, now: Timestamp, duration_minutes: i64) -> (plan: TimerPlan)
        requires
            now.wf(),
            in_range(now.secs + 60 * duration_minutes),
        ensures
            plan.steps@ == save_steps(),
            plan.record matches Some(text) && text@ == rfc3339_text(
                minutes_after(now, duration_minutes as int).secs,
                minutes_after(now, duration_minutes as int).nanos,
            ),
            plan.expired is None,
            plan.outcome matches Ok(state) && state == started_state(now, duration_minutes as int),
    {
        let mut record = LockRecord { unlock_at: None };
        let state = record.start_lock(now, duration_minutes);
        let mut steps: Vec<Step> = Vec::new();
        steps.push(Step::must(Effect::SaveRecord, FailureKind::Storage));
        assert(steps@ =~= save_steps());
        TimerPlan { steps, record: record.to_stored(), expired: None, outcome: Ok(state) }
    }

    /// Plans the reading of the lock's state at `now`, where `record` is
    /// what reading the slot gave.
    ///
    /// A store that failed gives that failure and no steps: it does not
    /// count as unlocked. An empty slot, or one whose text stands for no
    /// instant, gives the unlocked state. A slot whose instant lies ahead
    /// gives the locked state, with the whole seconds that remain. A slot
    /// whose instant is reached is emptied, which fails as a failure of the
    /// store, and the state is unlocked.
    pub fn get_state(&self, record: Result<Option<&str>, &str>, now: Timestamp) -> (plan:
        TimerPlan)
        requires
            now.wf(),
        ensures
            plan.record is None,
            match record {
                Err(cause) => {
                    &&& plan.steps@ == Seq::<Step>::empty()
                    &&& plan.expired is None
                    &&& plan.outcome matches Err(error)
                    &&& error.cause@ == cause@
                },
                Ok(stored) => {
                    let unlock = stored_instant(str_of(stored));
                    &&& plan.outcome matches Ok(state)
                    &&& state == lock_state(unlock, now)
                    &&& plan.expired == if has_expired(unlock, now) {
                        unlock
                    } else {
                        None
                    }
                    &&& plan.expired matches Some(end) ==> end.wf()
                    &&& plan.steps@ == if has_expired(unlock, now) {
                        clear_steps()
                    } else {
                        Seq::empty()
                    }
                },
            },
    {
        match record {
            Err(cause) => TimerPlan {
                steps: Vec::new(),
                record: None,
                expired: None,
                outcome: Err(StorageError { cause: cause.to_owned() }),
            },
            Ok(stored) => {
                let mut slot = LockRecord::new(stored);
                let before = slot.unlock_at;
                let state = slot.get_state(now);
                let mut steps: Vec<Step> = Vec::new();
                let expired = if before.is_some() && slot.unlock_at.is_none() {
                    steps.push(Step::must(Effect::DeleteRecord, FailureKind::Storage));
                    assert(steps@ =~= clear_steps());
                    before
                } else {
                    None
                };
                TimerPlan { steps, record: None, expired, outcome: Ok(state) }
            },
        }
    }

    /// Plans the emptying of the slot, whatever it holds: the slot is
    /// deleted, also where it is empty already, and the state is unlocked.
    /// A store that fails ends the operation with that failure.
    pub fn clear_lock(&self) -> (plan: TimerPlan)
        ensures
            plan.steps@ == clear_steps(),
            plan.record is None,
            plan.expired is None,
            plan.outcome matches Ok(state) && state == unlocked_state(),
    {
        let mut steps: Vec<Step> = Vec::new();
        steps.push(Step::must(Effect::DeleteRecord, FailureKind::Storage));
        assert(steps@ =~= clear_steps());
        TimerPlan {
            steps,
            record: None,
            expired: None,
            outcome: Ok(LockState { is_locked: false, unlock_time: None, remaining_seconds: 0 }),
        }
    }

    /// Whether the lock is active at `now`, where `record` is what reading
    /// the slot gave. A store that failed counts as not locked here.
    pub fn is_locked(&self, record: Result<Option<&str>, &str>, now: Timestamp) -> (locked: bool)
        requires
            now.wf(),
        ensures
            locked == lock_state(stored_instant(slot_read(record)), now).is_locked,
    {
        match self.get_state(record, now).outcome {
            Ok(state) => state.is_locked,
            Err(_) => false,
        }
    }
}

/// A lock of a positive number of minutes that was started at `start` and is
/// read at `now`, not before `start` and a whole second or more before its
/// end, is active, and of its seconds at least one and at most the full
/// duration remain. The reading leaves the slot as it is.
pub proof fn lemma_started_lock_is_active(start: Timestamp, minutes: int, now: Timestamp)
    requires
        start.wf(),
        now.wf(),
        minutes > 0,
        in_range(start.secs + 60 * minutes),
        !is_before(now, start),
        nanos_between(now, minutes_after(start, minutes)) >= NANOS_PER_SEC,
    ensures
        lock_state(Some(minutes_after(start, minutes)), now).is_locked,
        lock_state(Some(minutes_after(start, minutes)), now).unlock_time == Some(
            minutes_after(start, minutes),
        ),
        0 < lock_state(Some(minutes_after(start, minutes)), now).remaining_seconds <= minutes * 60,
        slot_after_read(Some(minutes_after(start, minutes)), now) == Some(
            minutes_after(start, minutes),
        ),
{
}

/// Once the instant of the slot is reached, a reading reports no lock and
/// empties the slot, and so does every reading after it, at whatever time.
pub proof fn lemma_expired_lock_stays_cleared(
    unlock: Option<Timestamp>,
    now: Timestamp,
    later: Timestamp,
)
    requires
        has_expired(unlock, now),
    ensures
        lock_state(unlock, now) == unlocked_state(),
        slot_after_read(unlock, now) is None,
        lock_state(slot_after_read(unlock, now), later) == unlocked_state(),
        slot_after_read(slot_after_read(unlock, now), later) is None,
{
}

} // verus!
