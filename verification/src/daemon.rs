//! The daemon's main loop as a state machine: collector events are
//! persisted while running; Ctrl+C broadcasts shutdown once, after which the
//! events still in the channel are drained before the daemon stops.
use vstd::prelude::*;

verus! {

/// Where the main loop is.
#[derive(Debug, Clone, Copy, PartialEq, Eq, Structural)]
pub enum DaemonPhase {
    /// Persisting events until Ctrl+C.
    Running,
    /// Shutdown was broadcast; persisting what is left in the channel.
    Draining,
    /// The loop has ended.
    Stopped,
}

/// What the loop observed.
#[derive(Debug, Clone, Copy, PartialEq, Eq, Structural)]
pub enum LoopEvent {
    /// A collector event arrived; it is to be persisted.
    Received,
    /// The event was persisted.
    Persisted,
    /// Persisting the event failed.
    PersistFailed,
    /// Ctrl+C was pressed.
    Interrupted,
    /// Every sender is gone and the channel is empty.
    Closed,
}

/// What the loop does next.
#[derive(Debug, Clone, Copy, PartialEq, Eq, Structural)]
pub enum LoopAction {
    /// Persist the event just received.
    Persist,
    /// Broadcast the shutdown signal to the collectors.
    BroadcastShutdown,
    /// Log the persistence failure as a warning and go on.
    WarnAndContinue,
    /// Wait for the next event.
    Wait,
    /// End the loop with the persistence error.
    Fail,
    /// End the loop successfully.
    Finish,
}

/// The transition table of the loop.
pub open spec fn daemon_step_spec(phase: DaemonPhase, event: LoopEvent) -> (DaemonPhase, LoopAction) {
    match phase {
        DaemonPhase::Running => match event {
            LoopEvent::Received => (DaemonPhase::Running, LoopAction::Persist),
            LoopEvent::Persisted => (DaemonPhase::Running, LoopAction::Wait),
            LoopEvent::PersistFailed => (DaemonPhase::Stopped, LoopAction::Fail),
            LoopEvent::Interrupted => (DaemonPhase::Draining, LoopAction::BroadcastShutdown),
            LoopEvent::Closed => (DaemonPhase::Running, LoopAction::Wait),
        },
        DaemonPhase::Draining => match event {
            LoopEvent::Received => (DaemonPhase::Draining, LoopAction::Persist),
            LoopEvent::Persisted => (DaemonPhase::Draining, LoopAction::Wait),
            LoopEvent::PersistFailed => (DaemonPhase::Draining, LoopAction::WarnAndContinue),
            LoopEvent::Interrupted => (DaemonPhase::Draining, LoopAction::Wait),
            LoopEvent::Closed => (DaemonPhase::Stopped, LoopAction::Finish),
        },
        DaemonPhase::Stopped => (DaemonPhase::Stopped, LoopAction::Wait),
    }
}

/// One step of the main loop. While running, an event is persisted and a
/// persistence failure ends the daemon with that error; a closed channel
/// does not end it (Ctrl+C does). After Ctrl+C, the shutdown is broadcast
/// and the remaining events are persisted, failures only logged, until the
/// channel is closed.
pub fn daemon_step(phase: DaemonPhase, event: LoopEvent) -> (r: (DaemonPhase, LoopAction))
    ensures
        r == daemon_step_spec(phase, event),
{
    match phase {
        DaemonPhase::Running => match event {
            LoopEvent::Received => (DaemonPhase::Running, LoopAction::Persist),
            LoopEvent::Persisted => (DaemonPhase::Running, LoopAction::Wait),
            LoopEvent::PersistFailed => (DaemonPhase::Stopped, LoopAction::Fail),
            LoopEvent::Interrupted => (DaemonPhase::Draining, LoopAction::BroadcastShutdown),
            LoopEvent::Closed => (DaemonPhase::Running, LoopAction::Wait),
        },
        DaemonPhase::Draining => match event {
            LoopEvent::Received => (DaemonPhase::Draining, LoopAction::Persist),
            LoopEvent::Persisted => (DaemonPhase::Draining, LoopAction::Wait),
            LoopEvent::PersistFailed => (DaemonPhase::Draining, LoopAction::WarnAndContinue),
            LoopEvent::Interrupted => (DaemonPhase::Draining, LoopAction::Wait),
            LoopEvent::Closed => (DaemonPhase::Stopped, LoopAction::Finish),
        },
        DaemonPhase::Stopped => (DaemonPhase::Stopped, LoopAction::Wait),
    }
}

/// The phase after a run of events.
pub open spec fn run_events(phase: DaemonPhase, events: Seq<LoopEvent>) -> DaemonPhase
    decreases events.len(),
{
    if events.len() == 0 {
        phase
    } else {
        run_events(daemon_step_spec(phase, events[0]).0, events.drop_first())
    }
}

/// The number of shutdown broadcasts during a run of events.
pub open spec fn broadcasts(phase: DaemonPhase, events: Seq<LoopEvent>) -> nat
    decreases events.len(),
{
    if events.len() == 0 {
        0
    } else {
        let (next, action) = daemon_step_spec(phase, events[0]);
        (if action == LoopAction::BroadcastShutdown {
            1nat
        } else {
            0nat
        }) + broadcasts(next, events.drop_first())
    }
}

/// Law: while the daemon has not stopped, every received event is
/// persisted.
pub proof fn law_received_events_are_persisted(phase: DaemonPhase)
    requires
        phase != DaemonPhase::Stopped,
    ensures
        daemon_step_spec(phase, LoopEvent::Received).1 == LoopAction::Persist,
{
}

/// Law: the shutdown signal is broadcast at most once, whatever happens, and
/// not at all once the loop drains.
pub proof fn law_shutdown_broadcast_at_most_once(phase: DaemonPhase, events: Seq<LoopEvent>)
    ensures
        broadcasts(phase, events) <= 1,
        phase != DaemonPhase::Running ==> broadcasts(phase, events) == 0,
    decreases events.len(),
{
    if events.len() > 0 {
        let next = daemon_step_spec(phase, events[0]).0;
        law_shutdown_broadcast_at_most_once(next, events.drop_first());
        if phase == DaemonPhase::Running && events[0] != LoopEvent::Interrupted {
            assert(next == DaemonPhase::Running || next == DaemonPhase::Stopped);
        }
    }
}

/// Law: once stopped, the loop stays stopped.
pub proof fn law_stopped_is_final(events: Seq<LoopEvent>)
    ensures
        run_events(DaemonPhase::Stopped, events) == DaemonPhase::Stopped,
    decreases events.len(),
{
    if events.len() > 0 {
        law_stopped_is_final(events.drop_first());
    }
}

/// Law: a running daemon leaves the running phase only on Ctrl+C or on a
/// persistence failure: over any run of other events (events received,
/// persisted, a closed channel) it keeps running.
pub proof fn law_running_until_interrupt_or_failure(events: Seq<LoopEvent>)
    requires
        forall|i: int|
            0 <= i < events.len() ==> #[trigger] events[i] != LoopEvent::Interrupted && events[i]
                != LoopEvent::PersistFailed,
    ensures
        run_events(DaemonPhase::Running, events) == DaemonPhase::Running,
    decreases events.len(),
{
    if events.len() > 0 {
        assert(events[0] != LoopEvent::Interrupted && events[0] != LoopEvent::PersistFailed);
        assert forall|i: int| 0 <= i < events.drop_first().len() implies #[trigger] events.drop_first()[i]
            != LoopEvent::Interrupted && events.drop_first()[i] != LoopEvent::PersistFailed by {
            assert(events.drop_first()[i] == events[i + 1]);
        }
        law_running_until_interrupt_or_failure(events.drop_first());
    }
}

/// Law: the loop ends successfully only when, after Ctrl+C, the channel is
/// closed; it ends with an error only when persisting fails while running.
pub proof fn law_how_the_loop_ends(phase: DaemonPhase, event: LoopEvent)
    ensures
        daemon_step_spec(phase, event).1 == LoopAction::Finish ==> phase == DaemonPhase::Draining
            && event == LoopEvent::Closed,
        daemon_step_spec(phase, event).1 == LoopAction::Fail ==> phase == DaemonPhase::Running
            && event == LoopEvent::PersistFailed,
        phase != DaemonPhase::Stopped && daemon_step_spec(phase, event).0 == DaemonPhase::Stopped
            ==> (daemon_step_spec(phase, event).1 == LoopAction::Finish || daemon_step_spec(
            phase,
            event,
        ).1 == LoopAction::Fail),
{
}

/// Law: Ctrl+C while running broadcasts the shutdown and starts draining;
/// while draining, events are still persisted, a persistence failure is
/// only logged, and only a closed channel ends the loop.
pub proof fn law_interrupt_drains_until_closed(event: LoopEvent)
    ensures
        daemon_step_spec(DaemonPhase::Running, LoopEvent::Interrupted) == (
            DaemonPhase::Draining,
            LoopAction::BroadcastShutdown,
        ),
        event != LoopEvent::Closed ==> daemon_step_spec(DaemonPhase::Draining, event).0
            == DaemonPhase::Draining,
        daemon_step_spec(DaemonPhase::Draining, LoopEvent::Closed) == (
            DaemonPhase::Stopped,
            LoopAction::Finish,
        ),
        daemon_step_spec(DaemonPhase::Draining, LoopEvent::PersistFailed).1
            == LoopAction::WarnAndContinue,
{
}

// ---------------------------------------------------------------------------
// Test data
// ---------------------------------------------------------------------------

/// The timestamp of the `idx`-th generated record: records are spread evenly
/// over the `hours_back` hours before `now`.
pub open spec fn sample_timestamp(now: u64, hours_back: u32, records_per_app: u32, idx: int) -> int {
    now - hours_back * 3600 + idx * ((hours_back * 3600) / (records_per_app as int))
}

/// The timestamps of the records generated for one application. There must
/// be at least one record per application, and `now` must lie at least
/// `hours_back` hours after the epoch.
pub fn sample_timestamps(now: u64, hours_back: u32, records_per_app: u32) -> (r: Vec<u64>)
    requires
        records_per_app > 0,
        now >= hours_back * 3600,
    ensures
        r@.len() == records_per_app,
        forall|i: int| 0 <= i < r@.len() ==> r@[i] == sample_timestamp(now, hours_back, records_per_app, i),
{
    let span: u64 = hours_back as u64 * 3600;
    let interval: u64 = span / records_per_app as u64;
    let start: u64 = now - span;
    let mut r: Vec<u64> = Vec::new();
    let mut i: u32 = 0;
    while i < records_per_app
        invariant
            i <= records_per_app,
            span == hours_back * 3600,
            interval == (span as int) / (records_per_app as int),
            start == now - span,
            records_per_app > 0,
            r@.len() == i,
            forall|k: int| 0 <= k < r@.len() ==> r@[k] == sample_timestamp(now, hours_back, records_per_app, k),
        decreases records_per_app - i,
    {
        assert(interval <= span) by (nonlinear_arith)
            requires
                interval == (span as int) / (records_per_app as int),
                records_per_app > 0,
        ;
        assert(i as int * interval <= records_per_app as int * interval) by (nonlinear_arith)
            requires
                i < records_per_app,
        ;
        assert(records_per_app as int * interval <= span) by (nonlinear_arith)
            requires
                interval == (span as int) / (records_per_app as int),
                records_per_app > 0,
        ;
        let offset: u64 = i as u64 * interval;
        r.push(start + offset);
        i = i + 1;
    }
    r
}

} // verus!
