//! Trigger decisions shared by auto-refresh and the `watch` subcommand: an
//! event-driven recheck on configuration changes, backed by an
//! adaptive-interval poll as a safety net.
use vstd::prelude::*;
use crate::status::{ConnectionConfidence, WatchCommand};

verus! {

pub const HEALTHY: u8 = 0;

pub const DEGRADED: u8 = 1;

/// The poll thread's sleep, in seconds, in each health state.
#[derive(Debug, Clone, Copy, PartialEq, Eq)]
pub struct Intervals {
    /// Used while checks come back healthy.
    pub healthy: u64,
    /// Used once a check has come back degraded, so recovery (or a worse
    /// outage) is noticed quickly.
    pub degraded: u64,
}

impl Default for Intervals {
    /// One minute while healthy, ten seconds while degraded.
    fn default() -> (r: Self)
        ensures
            r.healthy == 60,
            r.degraded == 10,
    {
        Intervals { healthy: 60, degraded: 10 }
    }
}

/// How much a triggered check probes: a configuration change warrants a
/// full recheck; a poll tick only re-runs the confidence probes.
#[derive(Debug, Clone, Copy, PartialEq, Eq)]
pub enum CheckScope {
    Full,
    ConfidenceOnly,
}

pub open spec fn interval_spec(intervals: Intervals, health: u8) -> u64 {
    if health == DEGRADED {
        intervals.degraded
    } else {
        intervals.healthy
    }
}

/// The poll sleep for the current health.
pub fn interval_for(intervals: Intervals, health: u8) -> (r: u64)
    ensures
        r == interval_spec(intervals, health),
{
    if health == DEGRADED {
        intervals.degraded
    } else {
        intervals.healthy
    }
}

/// Health after a check: degraded exactly when the check read offline.
pub fn health_after(confidence: Option<ConnectionConfidence>) -> (r: u8)
    ensures
        r == (if confidence == Some(ConnectionConfidence::Offline) {
            DEGRADED
        } else {
            HEALTHY
        }),
{
    match confidence {
        Some(ConnectionConfidence::Offline) => DEGRADED,
        _ => HEALTHY,
    }
}

/// A configuration change triggers a full check while enabled, nothing
/// otherwise.
pub fn on_config_change(enabled: bool) -> (r: Option<CheckScope>)
    ensures
        r == (if enabled {
            Some(CheckScope::Full)
        } else {
            None
        }),
{
    if enabled {
        Some(CheckScope::Full)
    } else {
        None
    }
}

/// The poll thread's state: whether it has fired since it started.
#[derive(Debug, Clone, Copy, PartialEq, Eq)]
pub struct PollState {
    pub first_fire: bool,
}

impl PollState {
    pub fn new() -> (r: Self)
        ensures
            r.first_fire,
    {
        PollState { first_fire: true }
    }
}

/// What one poll tick does: fire a check of the given scope (then sleep
/// for the health's interval), or sleep idly while disabled.
#[derive(Debug, Clone, Copy, PartialEq, Eq)]
pub enum PollAction {
    Fire(CheckScope),
    Idle,
}

pub open spec fn poll_action_spec(first_fire: bool, enabled: bool) -> PollAction {
    if enabled {
        PollAction::Fire(
            if first_fire {
                CheckScope::Full
            } else {
                CheckScope::ConfidenceOnly
            },
        )
    } else {
        PollAction::Idle
    }
}

/// One tick of the poll thread: while enabled, the first check is full and
/// every later one confidence-only; while disabled, nothing fires and
/// nothing changes.
pub fn poll_step(state: &mut PollState, enabled: bool) -> (r: PollAction)
    ensures
        r == poll_action_spec(old(state).first_fire, enabled),
        final(state).first_fire == (old(state).first_fire && !enabled),
{
    if enabled {
        let scope = if state.first_fire {
            CheckScope::Full
        } else {
            CheckScope::ConfidenceOnly
        };
        state.first_fire = false;
        PollAction::Fire(scope)
    } else {
        PollAction::Idle
    }
}

/// The actions of consecutive ticks with the given enabled flags, starting
/// from `first_fire`.
pub open spec fn poll_run(first_fire: bool, enabled: Seq<bool>) -> Seq<PollAction>
    decreases enabled.len(),
{
    if enabled.len() == 0 {
        Seq::empty()
    } else {
        seq![poll_action_spec(first_fire, enabled[0])] + poll_run(
            first_fire && !enabled[0],
            enabled.drop_first(),
        )
    }
}

/// Over any run of ticks from a fresh poll thread, exactly the first tick
/// that fires fires a full check; every other firing tick is
/// confidence-only, and disabled ticks fire nothing.
pub proof fn lemma_poll_run_first_full(first_fire: bool, enabled: Seq<bool>)
    ensures
        poll_run(first_fire, enabled).len() == enabled.len(),
        forall|i: int|
            0 <= i < enabled.len() ==> (#[trigger] poll_run(first_fire, enabled)[i] == if !enabled[i] {
                PollAction::Idle
            } else if first_fire && (forall|j: int| 0 <= j < i ==> !enabled[j]) {
                PollAction::Fire(CheckScope::Full)
            } else {
                PollAction::Fire(CheckScope::ConfidenceOnly)
            }),
    decreases enabled.len(),
{
    if enabled.len() > 0 {
        let rest = enabled.drop_first();
        lemma_poll_run_first_full(first_fire && !enabled[0], rest);
        assert forall|i: int| 0 <= i < enabled.len() implies (#[trigger] poll_run(
            first_fire,
            enabled,
        )[i] == if !enabled[i] {
            PollAction::Idle
        } else if first_fire && (forall|j: int| 0 <= j < i ==> !enabled[j]) {
            PollAction::Fire(CheckScope::Full)
        } else {
            PollAction::Fire(CheckScope::ConfidenceOnly)
        }) by {
            if i > 0 {
                assert(poll_run(first_fire, enabled)[i] == poll_run(first_fire && !enabled[0], rest)[i
                    - 1]);
                assert(rest[i - 1] == enabled[i]);
                if first_fire && !enabled[0] && (forall|j: int| 0 <= j < i - 1 ==> !rest[j]) {
                    assert forall|j: int| 0 <= j < i implies !enabled[j] by {
                        if j > 0 {
                            assert(rest[j - 1] == enabled[j]);
                        }
                    }
                }
                if first_fire && (forall|j: int| 0 <= j < i ==> !enabled[j]) {
                    assert(!enabled[0]);
                    assert forall|j: int| 0 <= j < i - 1 implies !rest[j] by {
                        assert(rest[j] == enabled[j + 1]);
                    }
                }
            }
        }
    }
}

/// A field from a triggered check is passed on only while that check is the
/// latest one started, so a slower, older check never overwrites what a
/// newer one reported.
pub fn forwards(latest_check: u64, this_check: u64) -> (r: bool)
    ensures
        r == (latest_check == this_check),
{
    latest_check == this_check
}

/// What a command read on the watch loop's input asks for: `Refresh` runs a
/// full check at once, the same as a configuration change.
pub fn command_scope(command: WatchCommand) -> (r: CheckScope)
    ensures
        r == CheckScope::Full,
{
    match command {
        WatchCommand::Refresh => CheckScope::Full,
    }
}

/// One moment the trigger reacts to: a configuration change reported by
/// the dynamic store, or the poll thread waking up. For a poll tick,
/// `health` is the health read once the tick's check (if any) is done.
#[derive(Debug, Clone, Copy, PartialEq, Eq)]
pub enum TriggerEvent {
    ConfigChange { enabled: bool },
    PollTick { enabled: bool, health: u8 },
}

/// The event finds the trigger enabled.
pub open spec fn event_enabled(e: TriggerEvent) -> bool {
    match e {
        TriggerEvent::ConfigChange { enabled } => enabled,
        TriggerEvent::PollTick { enabled, .. } => enabled,
    }
}

/// A poll tick that fires a check.
pub open spec fn poll_fired(e: TriggerEvent) -> bool {
    e matches TriggerEvent::PollTick { enabled, .. } && enabled
}

/// What the trigger does at one event, as the watcher and the poll thread
/// decide it: the check fired, if any, and, after a poll tick that fired,
/// the seconds the poll thread then sleeps.
pub open spec fn trigger_reaction(intervals: Intervals, first_fire: bool, e: TriggerEvent) -> (
    Option<CheckScope>,
    Option<u64>,
) {
    match e {
        TriggerEvent::ConfigChange { enabled } => (
            if enabled {
                Some(CheckScope::Full)
            } else {
                None
            },
            None,
        ),
        TriggerEvent::PollTick { enabled, health } => (
            match poll_action_spec(first_fire, enabled) {
                PollAction::Fire(scope) => Some(scope),
                PollAction::Idle => None,
            },
            if enabled {
                Some(interval_spec(intervals, health))
            } else {
                None
            },
        ),
    }
}

/// The trigger's reactions to a run of events, the poll thread's
/// first-fire flag carried from tick to tick.
pub open spec fn trigger_run(intervals: Intervals, first_fire: bool, events: Seq<TriggerEvent>) -> Seq<
    (Option<CheckScope>, Option<u64>),
>
    decreases events.len(),
{
    if events.len() == 0 {
        Seq::empty()
    } else {
        seq![trigger_reaction(intervals, first_fire, events[0])] + trigger_run(
            intervals,
            first_fire && !poll_fired(events[0]),
            events.drop_first(),
        )
    }
}

/// Over any run of configuration changes and poll ticks: a check is fired
/// only while the trigger is enabled; every configuration change fires a
/// full check; the first poll tick that fires (when the poll starts fresh)
/// fires a full check and every later one a confidence-only check; and
/// after each poll tick that fired, the poll thread sleeps the interval of
/// the health read after that check.
pub proof fn lemma_trigger_run(intervals: Intervals, first_fire: bool, events: Seq<TriggerEvent>)
    ensures
        trigger_run(intervals, first_fire, events).len() == events.len(),
        forall|i: int|
            0 <= i < events.len() ==> {
                let r = #[trigger] trigger_run(intervals, first_fire, events)[i];
                &&& (r.0 is Some ==> event_enabled(events[i]))
                &&& (events[i] matches TriggerEvent::ConfigChange { enabled } && enabled ==> r.0
                    == Some(CheckScope::Full))
                &&& (poll_fired(events[i]) ==> r.0 == Some(
                    if first_fire && (forall|j: int| 0 <= j < i ==> !poll_fired(events[j])) {
                        CheckScope::Full
                    } else {
                        CheckScope::ConfidenceOnly
                    },
                ))
                &&& (events[i] matches TriggerEvent::PollTick { enabled, health } ==> r.1 == (
                if enabled {
                    Some(interval_spec(intervals, health))
                } else {
                    None
                }))
                &&& (events[i] is ConfigChange ==> r.1 is None)
            },
    decreases events.len(),
{
    if events.len() > 0 {
        let rest = events.drop_first();
        let f2 = first_fire && !poll_fired(events[0]);
        lemma_trigger_run(intervals, f2, rest);
        let run = trigger_run(intervals, first_fire, events);
        assert forall|i: int| 0 <= i < events.len() implies {
            let r = #[trigger] trigger_run(intervals, first_fire, events)[i];
            &&& (r.0 is Some ==> event_enabled(events[i]))
            &&& (events[i] matches TriggerEvent::ConfigChange { enabled } && enabled ==> r.0 == Some(
                CheckScope::Full,
            ))
            &&& (poll_fired(events[i]) ==> r.0 == Some(
                if first_fire && (forall|j: int| 0 <= j < i ==> !poll_fired(events[j])) {
                    CheckScope::Full
                } else {
                    CheckScope::ConfidenceOnly
                },
            ))
            &&& (events[i] matches TriggerEvent::PollTick { enabled, health } ==> r.1 == (if enabled {
                Some(interval_spec(intervals, health))
            } else {
                None
            }))
            &&& (events[i] is ConfigChange ==> r.1 is None)
        } by {
            if i > 0 {
                assert(run[i] == trigger_run(intervals, f2, rest)[i - 1]);
                assert(rest[i - 1] == events[i]);
                let _ = trigger_run(intervals, f2, rest)[i - 1];
                if first_fire && (forall|j: int| 0 <= j < i ==> !poll_fired(events[j])) {
                    assert(!poll_fired(events[0]));
                    assert forall|j: int| 0 <= j < i - 1 implies !poll_fired(rest[j]) by {
                        assert(rest[j] == events[j + 1]);
                    }
                }
                if f2 && (forall|j: int| 0 <= j < i - 1 ==> !poll_fired(rest[j])) {
                    assert forall|j: int| 0 <= j < i implies !poll_fired(events[j]) by {
                        if j > 0 {
                            assert(rest[j - 1] == events[j]);
                        }
                    }
                }
            }
        }
    }
}

} // verus!
