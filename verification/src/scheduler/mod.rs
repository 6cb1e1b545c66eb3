//! The per-source scheduler: one independent timer loop per data source,
//! each guarded by that source's advisory lock.
//!
//! The loop itself lives with the caller. This module decides, for every
//! event the caller reports, what state the source is in next and what has
//! to be done.

pub mod locks;

use crate::config::Config;
use vstd::prelude::*;

verus! {

/// The data sources the service polls.
#[derive(Debug, Clone, Copy, PartialEq, Eq, Structural)]
pub enum SourceId {
    Iss,
    Osdr,
    Apod,
    Neo,
    Donki,
    SpaceX,
}

pub const ISS_LOCK_ID: i64 = 1001;

pub const OSDR_LOCK_ID: i64 = 1002;

pub const APOD_LOCK_ID: i64 = 1003;

pub const NEO_LOCK_ID: i64 = 1004;

pub const DONKI_LOCK_ID: i64 = 1005;

pub const SPACEX_LOCK_ID: i64 = 1006;

/// Seconds between two synchronisations of the dataset catalogue.
pub const OSDR_EVERY_SECONDS: u64 = 7200;

/// What the scheduler needs to know about one source. Fixed at startup.
#[derive(Debug, Clone, Copy, PartialEq, Eq, Structural)]
pub struct SourceDescriptor {
    pub source: SourceId,
    pub poll_interval_seconds: u64,
    pub lock_id: i64,
}

impl SourceId {
    /// The advisory lock reserved for this source.
    pub open spec fn spec_lock_id(self) -> i64 {
        match self {
            SourceId::Iss => ISS_LOCK_ID,
            SourceId::Osdr => OSDR_LOCK_ID,
            SourceId::Apod => APOD_LOCK_ID,
            SourceId::Neo => NEO_LOCK_ID,
            SourceId::Donki => DONKI_LOCK_ID,
            SourceId::SpaceX => SPACEX_LOCK_ID,
        }
    }

    pub fn lock_id(self) -> (id: i64)
        ensures
            id == self.spec_lock_id(),
    {
        match self {
            SourceId::Iss => ISS_LOCK_ID,
            SourceId::Osdr => OSDR_LOCK_ID,
            SourceId::Apod => APOD_LOCK_ID,
            SourceId::Neo => NEO_LOCK_ID,
            SourceId::Donki => DONKI_LOCK_ID,
            SourceId::SpaceX => SPACEX_LOCK_ID,
        }
    }

    /// Seconds between two polls of this source under `config`.
    pub open spec fn spec_interval(self, config: Config) -> u64 {
        match self {
            SourceId::Iss => config.iss_every_seconds,
            SourceId::Osdr => OSDR_EVERY_SECONDS,
            SourceId::Apod => config.apod_every_seconds,
            SourceId::Neo => config.neo_every_seconds,
            SourceId::Donki => config.donki_every_seconds,
            SourceId::SpaceX => config.spacex_every_seconds,
        }
    }

    pub fn interval(self, config: &Config) -> (secs: u64)
        ensures
            secs == self.spec_interval(*config),
    {
        match self {
            SourceId::Iss => config.iss_every_seconds,
            SourceId::Osdr => OSDR_EVERY_SECONDS,
            SourceId::Apod => config.apod_every_seconds,
            SourceId::Neo => config.neo_every_seconds,
            SourceId::Donki => config.donki_every_seconds,
            SourceId::SpaceX => config.spacex_every_seconds,
        }
    }

    pub open spec fn spec_descriptor(self, config: Config) -> SourceDescriptor {
        SourceDescriptor {
            source: self,
            poll_interval_seconds: self.spec_interval(config),
            lock_id: self.spec_lock_id(),
        }
    }
}

/// Two different sources never share a lock.
pub proof fn lemma_lock_ids_distinct(a: SourceId, b: SourceId)
    requires
        a != b,
    ensures
        a.spec_lock_id() != b.spec_lock_id(),
{
}

/// The sources in the order their loops are started.
pub open spec fn spec_sources() -> Seq<SourceId> {
    seq![
        SourceId::Iss,
        SourceId::Osdr,
        SourceId::Apod,
        SourceId::Neo,
        SourceId::Donki,
        SourceId::SpaceX,
    ]
}

pub struct Scheduler {
    pub config: Config,
}

impl Scheduler {
    pub fn new(config: Config) -> (s: Scheduler)
        ensures
            s.config == config,
    {
        Scheduler { config }
    }

    /// One descriptor per source, in start order, with the intervals the
    /// configuration gives and the lock reserved for each.
    pub fn start(&self) -> (plan: Vec<SourceDescriptor>)
        ensures
            plan@.len() == spec_sources().len(),
            forall|i: int|
                0 <= i < plan@.len() ==> plan@[i] == (#[trigger] spec_sources()[i]).spec_descriptor(
                    self.config,
                ),
    {
        let mut plan: Vec<SourceDescriptor> = Vec::new();
        plan.push(describe(SourceId::Iss, &self.config));
        plan.push(describe(SourceId::Osdr, &self.config));
        plan.push(describe(SourceId::Apod, &self.config));
        plan.push(describe(SourceId::Neo, &self.config));
        plan.push(describe(SourceId::Donki, &self.config));
        plan.push(describe(SourceId::SpaceX, &self.config));
        plan
    }
}

fn describe(source: SourceId, config: &Config) -> (d: SourceDescriptor)
    ensures
        d == source.spec_descriptor(*config),
{
    SourceDescriptor {
        source,
        poll_interval_seconds: source.interval(config),
        lock_id: source.lock_id(),
    }
}

/// Where one source's loop stands.
#[derive(Debug, Clone, Copy, PartialEq, Eq, Structural)]
pub enum TaskState {
    /// Waiting for the next tick. No lock is held.
    Idle,
    /// A lock attempt is under way. No lock is held yet.
    AttemptingLock,
    /// The lock is held and the collector is running.
    Running,
}

/// How a collector cycle ended.
#[derive(Debug, Clone, Copy, PartialEq, Eq, Structural)]
pub enum CycleOutcome {
    /// The cycle stored this many records.
    Stored { count: u64 },
    /// The cycle failed; nothing more is known here.
    Failed,
}

/// What the caller reports to a source's loop.
#[derive(Debug, Clone, Copy, PartialEq, Eq, Structural)]
pub enum TaskEvent {
    /// The timer fired.
    Tick,
    /// The lock attempt returned true.
    LockGranted,
    /// The lock attempt returned false: another holder has it.
    LockDenied,
    /// The lock attempt could not reach the backing store.
    LockUnreachable,
    /// The collector returned.
    CycleFinished { outcome: CycleOutcome },
}

/// What the caller has to do next.
#[derive(Debug, Clone, Copy, PartialEq, Eq, Structural)]
pub enum TaskAction {
    /// Wait one full interval, then report `Tick`.
    AwaitTick { seconds: u64 },
    /// Try the lock once, without blocking, and report how it went.
    TryAcquire { lock_id: i64 },
    /// Run the collector once and report how it ended.
    RunCycle { source: SourceId },
    /// Release the lock, then wait one full interval and report `Tick`.
    ReleaseThenAwaitTick { lock_id: i64, seconds: u64 },
    /// The event does not fit the state; nothing changes.
    Ignore,
}

/// What a transition is worth telling an observer.
#[derive(Debug, Clone, Copy, PartialEq, Eq, Structural)]
pub enum TaskNote {
    Nothing,
    LockAcquired { lock_id: i64 },
    /// Skipped the tick: the lock is held elsewhere.
    LockContended { lock_id: i64 },
    /// Skipped the tick: the lock store could not be reached.
    LockStoreFailed { lock_id: i64 },
    CycleSucceeded { source: SourceId, count: u64 },
    CycleFailed { source: SourceId },
}

/// Result of one transition.
#[derive(Debug, Clone, Copy, PartialEq, Eq, Structural)]
pub struct TaskStep {
    pub state: TaskState,
    pub action: TaskAction,
    pub note: TaskNote,
}

impl TaskState {
    /// The source's lock is held exactly while its collector runs.
    pub open spec fn holds_lock(self) -> bool {
        self is Running
    }
}

/// The transition relation of one source's loop, as a function.
pub open spec fn spec_task_step(d: SourceDescriptor, state: TaskState, event: TaskEvent) -> TaskStep {
    let wait = TaskAction::AwaitTick { seconds: d.poll_interval_seconds };
    match (state, event) {
        (TaskState::Idle, TaskEvent::Tick) => TaskStep {
            state: TaskState::AttemptingLock,
            action: TaskAction::TryAcquire { lock_id: d.lock_id },
            note: TaskNote::Nothing,
        },
        (TaskState::AttemptingLock, TaskEvent::LockGranted) => TaskStep {
            state: TaskState::Running,
            action: TaskAction::RunCycle { source: d.source },
            note: TaskNote::LockAcquired { lock_id: d.lock_id },
        },
        (TaskState::AttemptingLock, TaskEvent::LockDenied) => TaskStep {
            state: TaskState::Idle,
            action: wait,
            note: TaskNote::LockContended { lock_id: d.lock_id },
        },
        (TaskState::AttemptingLock, TaskEvent::LockUnreachable) => TaskStep {
            state: TaskState::Idle,
            action: wait,
            note: TaskNote::LockStoreFailed { lock_id: d.lock_id },
        },
        (TaskState::Running, TaskEvent::CycleFinished { outcome }) => TaskStep {
            state: TaskState::Idle,
            action: TaskAction::ReleaseThenAwaitTick {
                lock_id: d.lock_id,
                seconds: d.poll_interval_seconds,
            },
            note: match outcome {
                CycleOutcome::Stored { count } => TaskNote::CycleSucceeded {
                    source: d.source,
                    count,
                },
                CycleOutcome::Failed => TaskNote::CycleFailed { source: d.source },
            },
        },
        _ => TaskStep { state, action: TaskAction::Ignore, note: TaskNote::Nothing },
    }
}

impl SourceDescriptor {
    /// The state a source's loop starts in, and the first thing to do: wait
    /// one full interval. Nothing runs at startup.
    pub fn begin(&self) -> (r: TaskStep)
        ensures
            r == (TaskStep {
                state: TaskState::Idle,
                action: TaskAction::AwaitTick { seconds: self.poll_interval_seconds },
                note: TaskNote::Nothing,
            }),
    {
        TaskStep {
            state: TaskState::Idle,
            action: TaskAction::AwaitTick { seconds: self.poll_interval_seconds },
            note: TaskNote::Nothing,
        }
    }

    /// One transition of the source's loop.
    pub fn step(&self, state: TaskState, event: TaskEvent) -> (r: TaskStep)
        ensures
            r == spec_task_step(*self, state, event),
    {
        let ignore = TaskStep { state, action: TaskAction::Ignore, note: TaskNote::Nothing };
        match state {
            TaskState::Idle => match event {
                TaskEvent::Tick => TaskStep {
                    state: TaskState::AttemptingLock,
                    action: TaskAction::TryAcquire { lock_id: self.lock_id },
                    note: TaskNote::Nothing,
                },
                _ => ignore,
            },
            TaskState::AttemptingLock => match event {
                TaskEvent::LockGranted => TaskStep {
                    state: TaskState::Running,
                    action: TaskAction::RunCycle { source: self.source },
                    note: TaskNote::LockAcquired { lock_id: self.lock_id },
                },
                TaskEvent::LockDenied => TaskStep {
                    state: TaskState::Idle,
                    action: TaskAction::AwaitTick { seconds: self.poll_interval_seconds },
                    note: TaskNote::LockContended { lock_id: self.lock_id },
                },
                TaskEvent::LockUnreachable => TaskStep {
                    state: TaskState::Idle,
                    action: TaskAction::AwaitTick { seconds: self.poll_interval_seconds },
                    note: TaskNote::LockStoreFailed { lock_id: self.lock_id },
                },
                _ => ignore,
            },
            TaskState::Running => match event {
                TaskEvent::CycleFinished { outcome } => TaskStep {
                    state: TaskState::Idle,
                    action: TaskAction::ReleaseThenAwaitTick {
                        lock_id: self.lock_id,
                        seconds: self.poll_interval_seconds,
                    },
                    note: match outcome {
                        CycleOutcome::Stored { count } => TaskNote::CycleSucceeded {
                            source: self.source,
                            count,
                        },
                        CycleOutcome::Failed => TaskNote::CycleFailed { source: self.source },
                    },
                },
                _ => ignore,
            },
        }
    }
}

/// Turns what a lock attempt returned into the event to report. An
/// unreachable store counts as "not acquired".
pub fn lock_event(attempt: Result<bool, ()>) -> (e: TaskEvent)
    ensures
        e == match attempt {
            Ok(true) => TaskEvent::LockGranted,
            Ok(false) => TaskEvent::LockDenied,
            Err(_) => TaskEvent::LockUnreachable,
        },
{
    match attempt {
        Ok(true) => TaskEvent::LockGranted,
        Ok(false) => TaskEvent::LockDenied,
        Err(_) => TaskEvent::LockUnreachable,
    }
}

/// Tally of one source's loop over a run of events.
pub struct TaskTally {
    pub state: TaskState,
    /// Lock acquisitions so far.
    pub acquired: nat,
    /// Lock releases asked for so far.
    pub released: nat,
    /// Collector cycles started so far.
    pub cycles: nat,
}

/// Where a source's loop stands after `events`, starting idle, and how
/// often it took and gave back its lock on the way.
pub open spec fn spec_tally(d: SourceDescriptor, events: Seq<TaskEvent>) -> TaskTally
    decreases events.len(),
{
    if events.len() == 0 {
        TaskTally { state: TaskState::Idle, acquired: 0, released: 0, cycles: 0 }
    } else {
        let before = spec_tally(d, events.drop_last());
        let step = spec_task_step(d, before.state, events.last());
        TaskTally {
            state: step.state,
            acquired: before.acquired + if step.note is LockAcquired {
                1nat
            } else {
                0nat
            },
            released: before.released + if step.action is ReleaseThenAwaitTick {
                1nat
            } else {
                0nat
            },
            cycles: before.cycles + if step.action is RunCycle {
                1nat
            } else {
                0nat
            },
        }
    }
}

/// Whatever the caller reports, in whatever order: every acquisition is
/// released exactly once, except the one still in use while the collector
/// runs; and a collector cycle starts only under a fresh acquisition.
pub proof fn lemma_lock_released_once(d: SourceDescriptor, events: Seq<TaskEvent>)
    ensures
        spec_tally(d, events).acquired == spec_tally(d, events).released + if spec_tally(
            d,
            events,
        ).state.holds_lock() {
            1nat
        } else {
            0nat
        },
        spec_tally(d, events).cycles == spec_tally(d, events).acquired,
    decreases events.len(),
{
    if events.len() > 0 {
        lemma_lock_released_once(d, events.drop_last());
    }
}

/// A failed collector cycle releases the lock and goes back to waiting just
/// as a successful one does.
pub proof fn lemma_failure_releases(d: SourceDescriptor, outcome: CycleOutcome)
    ensures
        spec_task_step(d, TaskState::Running, TaskEvent::CycleFinished { outcome }).state
            == TaskState::Idle,
        spec_task_step(d, TaskState::Running, TaskEvent::CycleFinished { outcome }).action == (
        TaskAction::ReleaseThenAwaitTick { lock_id: d.lock_id, seconds: d.poll_interval_seconds }),
{
}

/// A tick whose lock attempt does not succeed starts no collector cycle and
/// releases nothing.
pub proof fn lemma_contended_tick_skips(d: SourceDescriptor, attempt: TaskEvent)
    requires
        attempt is LockDenied || attempt is LockUnreachable,
    ensures
        spec_task_step(d, TaskState::AttemptingLock, attempt).state == TaskState::Idle,
        spec_task_step(d, TaskState::AttemptingLock, attempt).action == (TaskAction::AwaitTick {
            seconds: d.poll_interval_seconds,
        }),
{
}

/// What is known about one source's collection: when it last ran, how that
/// went, and how many ticks it has sat out.
#[derive(Debug, Clone, Copy, PartialEq, Eq, Structural)]
pub struct SourceStatus {
    pub source: SourceId,
    /// The second the last cycle ended, if one has.
    pub last_run_at: Option<i64>,
    /// How the last cycle ended, if one has.
    pub last_outcome: Option<CycleOutcome>,
    /// Ticks skipped because the lock was not obtained.
    pub skipped_ticks: u64,
}

/// The status after a transition whose note is `note`, observed at `now`.
/// Notes about another source change nothing. The count of skipped ticks
/// stops at the top of its range.
pub open spec fn spec_observe(status: SourceStatus, note: TaskNote, now: i64) -> SourceStatus {
    match note {
        TaskNote::CycleSucceeded { source, count } => if source == status.source {
            SourceStatus {
                last_run_at: Some(now),
                last_outcome: Some(CycleOutcome::Stored { count }),
                ..status
            }
        } else {
            status
        },
        TaskNote::CycleFailed { source } => if source == status.source {
            SourceStatus {
                last_run_at: Some(now),
                last_outcome: Some(CycleOutcome::Failed),
                ..status
            }
        } else {
            status
        },
        TaskNote::LockContended { lock_id } | TaskNote::LockStoreFailed { lock_id } => if lock_id
            == status.source.spec_lock_id() && status.skipped_ticks < u64::MAX {
            SourceStatus { skipped_ticks: (status.skipped_ticks + 1) as u64, ..status }
        } else {
            status
        },
        _ => status,
    }
}

impl SourceStatus {
    /// The status of a source that has not run yet.
    pub fn new(source: SourceId) -> (s: SourceStatus)
        ensures
            s == (SourceStatus { source, last_run_at: None, last_outcome: None, skipped_ticks: 0 }),
    {
        SourceStatus { source, last_run_at: None, last_outcome: None, skipped_ticks: 0 }
    }

    /// Takes note of one transition of the source's loop.
    pub fn observe(self, note: TaskNote, now: i64) -> (s: SourceStatus)
        ensures
            s == spec_observe(self, note, now),
    {
        match note {
            TaskNote::CycleSucceeded { source, count } => {
                if source == self.source {
                    SourceStatus {
                        last_run_at: Some(now),
                        last_outcome: Some(CycleOutcome::Stored { count }),
                        ..self
                    }
                } else {
                    self
                }
            },
            TaskNote::CycleFailed { source } => {
                if source == self.source {
                    SourceStatus {
                        last_run_at: Some(now),
                        last_outcome: Some(CycleOutcome::Failed),
                        ..self
                    }
                } else {
                    self
                }
            },
            TaskNote::LockContended { lock_id } => self.skipped(lock_id),
            TaskNote::LockStoreFailed { lock_id } => self.skipped(lock_id),
            _ => self,
        }
    }

    fn skipped(self, lock_id: i64) -> (s: SourceStatus)
        ensures
            s == if lock_id == self.source.spec_lock_id() && self.skipped_ticks < u64::MAX {
                SourceStatus { skipped_ticks: (self.skipped_ticks + 1) as u64, ..self }
            } else {
                self
            },
    {
        if lock_id == self.source.lock_id() && self.skipped_ticks < u64::MAX {
            SourceStatus { skipped_ticks: self.skipped_ticks + 1, ..self }
        } else {
            self
        }
    }
}

} // verus!
