//! The life of a logger, from configuration to the end of its consumer, as a
//! state machine: what happened, what phase follows, and what is to be done.

use vstd::prelude::*;

verus! {

/// Where a logger stands in its life.
#[derive(Clone, Copy, Debug, PartialEq, Eq, Structural)]
pub enum Phase {
    /// Being configured; no record is accepted yet.
    Constructing,
    /// Installed: records are accepted and the consumer runs.
    Installed,
    /// The request to stop is in the queue and the consumer drains what came
    /// before it.
    Stopping,
    /// The consumer has ended. Nothing follows.
    Exited,
}

/// What happens to a logger.
#[derive(Clone, Copy, Debug, PartialEq, Eq, Structural)]
pub enum Event {
    /// The logger is installed.
    Install,
    /// Someone asks for the shutdown and waits for it.
    Join,
    /// The consumer has taken the request to stop out of the queue.
    Drained,
}

/// What is to be done after an event.
#[derive(Clone, Copy, Debug, PartialEq, Eq, Structural)]
pub enum Action {
    /// Nothing.
    Nothing,
    /// Start the consumer.
    Spawn,
    /// Put the request to stop into the queue, waiting for room, and wait
    /// for the consumer to end.
    SendStop,
    /// Raise the flag that says that the logger has exited.
    MarkExited,
}

impl Phase {
    /// The place of the phase in the order of a logger's life.
    pub open spec fn spec_rank(self) -> u8 {
        match self {
            Phase::Constructing => 0,
            Phase::Installed => 1,
            Phase::Stopping => 2,
            Phase::Exited => 3,
        }
    }

    #[verifier::when_used_as_spec(spec_rank)]
    pub fn rank(self) -> (r: u8)
        ensures
            r == self.spec_rank(),
    {
        match self {
            Phase::Constructing => 0,
            Phase::Installed => 1,
            Phase::Stopping => 2,
            Phase::Exited => 3,
        }
    }
}

/// The phase after an event and what the event asks for. An event that does
/// not fit the phase changes nothing and asks for nothing.
pub open spec fn spec_step(phase: Phase, event: Event) -> (Phase, Action) {
    match (phase, event) {
        (Phase::Constructing, Event::Install) => (Phase::Installed, Action::Spawn),
        (Phase::Installed, Event::Join) => (Phase::Stopping, Action::SendStop),
        (Phase::Stopping, Event::Drained) => (Phase::Exited, Action::MarkExited),
        _ => (phase, Action::Nothing),
    }
}

#[verifier::when_used_as_spec(spec_step)]
pub fn step(phase: Phase, event: Event) -> (r: (Phase, Action))
    ensures
        r == spec_step(phase, event),
{
    match (phase, event) {
        (Phase::Constructing, Event::Install) => (Phase::Installed, Action::Spawn),
        (Phase::Installed, Event::Join) => (Phase::Stopping, Action::SendStop),
        (Phase::Stopping, Event::Drained) => (Phase::Exited, Action::MarkExited),
        _ => (phase, Action::Nothing),
    }
}

/// The phase after a run of events, taken in order.
pub open spec fn after(phase: Phase, events: Seq<Event>) -> Phase
    decreases events.len(),
{
    if events.len() == 0 {
        phase
    } else {
        step(after(phase, events.drop_last()), events.last()).0
    }
}

/// A second request for the shutdown changes nothing and asks for nothing,
/// whatever the phase at the first one.
pub proof fn lemma_join_is_idempotent(phase: Phase)
    ensures
        step(step(phase, Event::Join).0, Event::Join) == (step(phase, Event::Join).0, Action::Nothing),
{
}

/// An event moves a logger by one phase at most and never back, and only the
/// event that fits the phase moves it; the request to stop is asked for in
/// one place only, on the way from `Installed` to `Stopping`.
pub proof fn lemma_no_phase_is_skipped(phase: Phase, event: Event)
    ensures
        phase.rank() <= step(phase, event).0.rank() <= phase.rank() + 1,
        step(phase, event).0 == phase <==> step(phase, event).1 == Action::Nothing,
        step(phase, event).1 == Action::SendStop <==> phase == Phase::Installed && event
            == Event::Join,
{
}

/// `Exited` is final: whatever happens afterwards, the logger stays exited.
pub proof fn lemma_exited_is_final(events: Seq<Event>)
    ensures
        after(Phase::Exited, events) == Phase::Exited,
    decreases events.len(),
{
    if events.len() > 0 {
        lemma_exited_is_final(events.drop_last());
    }
}

/// A logger reaches `Exited` only through `Stopping`: if it has exited after
/// a run of events that began before `Exited`, then at some point of the run
/// it was stopping.
pub proof fn lemma_exit_passes_through_stopping(phase: Phase, events: Seq<Event>)
    requires
        phase != Phase::Exited,
        after(phase, events) == Phase::Exited,
    ensures
        exists|n: int| 0 <= n < events.len() && #[trigger] after(phase, events.take(n)) == Phase::Stopping,
    decreases events.len(),
{
    let front = events.drop_last();
    assert(events.len() > 0);
    assert(events.take(events.len() - 1) =~= front);
    if after(phase, front) == Phase::Exited {
        lemma_exit_passes_through_stopping(phase, front);
        let n = choose|n: int| 0 <= n < front.len() && #[trigger] after(phase, front.take(n)) == Phase::Stopping;
        assert(events.take(n) =~= front.take(n));
    } else {
        assert(after(phase, events.take(events.len() - 1)) == Phase::Stopping);
    }
}

} // verus!
