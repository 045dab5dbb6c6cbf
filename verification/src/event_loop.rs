//! The decisions of the loop that waits for commands and serves them.

use vstd::prelude::*;

verus! {

/// What the loop has to do next.
#[derive(Clone, Copy, Debug, PartialEq, Eq, Structural)]
pub enum Action {
    /// Ask, without waiting, how the set-up of the loopback fabric goes.
    CheckLoopback,
    /// Wait for an interrupt, but not for long.
    Poll,
    /// Read the interrupt counter, so that the next wait starts afresh.
    ReadCounter,
    /// Serve all entries of the ring.
    Drain,
    /// Tell the kernel that entries were served.
    Notify,
    /// Leave the loop.
    Finish(Outcome),
}

/// What came of an action.
#[derive(Clone, Copy, Debug, PartialEq, Eq, Structural)]
pub enum Event {
    /// The loopback fabric is still being set up.
    LoopbackPending,
    /// The loopback fabric is set up.
    LoopbackReady,
    /// Setting up the loopback fabric failed.
    LoopbackFailed,
    /// Whoever set up the loopback fabric is gone.
    LoopbackLost,
    /// The wait ended because of a signal.
    PollInterrupted { stopped: bool },
    /// The wait failed.
    PollFailed,
    /// The wait ended without an interrupt.
    PollTimedOut { stopped: bool },
    /// The wait ended with an interrupt.
    PollReady { stopped: bool },
    /// The interrupt counter was read.
    CounterRead,
    /// The interrupt counter could not be read.
    CounterFailed,
    /// All entries were served.
    Drained,
    /// An entry could not be served.
    DrainFailed,
    /// The kernel was told.
    Notified,
    /// The kernel could not be told.
    NotifyFailed,
}

/// Why the loop was left.
#[derive(Clone, Copy, Debug, PartialEq, Eq, Structural)]
pub enum Outcome {
    /// It was asked to stop.
    Stopped,
    /// Setting up the loopback fabric failed.
    LoopbackFailed,
    /// Whoever set up the loopback fabric is gone.
    LoopbackLost,
    /// Waiting for an interrupt failed.
    PollFailed,
    /// The interrupt counter could not be read.
    CounterFailed,
    /// An entry could not be served.
    DrainFailed,
    /// The kernel could not be told.
    NotifyFailed,
    /// It was asked to stop, but the set-up of the loopback fabric had panicked.
    LoopbackPanicked,
}

/// What comes first in each round: a look at the loopback fabric, as long as that is
/// being set up.
pub open spec fn round_start(awaiting_loopback: bool) -> Action {
    if awaiting_loopback {
        Action::CheckLoopback
    } else {
        Action::Poll
    }
}

/// What to do after `event`.
pub open spec fn reaction(awaiting_loopback: bool, event: Event) -> Action {
    match event {
        Event::LoopbackPending => Action::Poll,
        Event::LoopbackReady => Action::Poll,
        Event::LoopbackFailed => Action::Finish(Outcome::LoopbackFailed),
        Event::LoopbackLost => Action::Finish(Outcome::LoopbackLost),
        Event::PollInterrupted { stopped } => if stopped {
            Action::Finish(Outcome::Stopped)
        } else {
            round_start(awaiting_loopback)
        },
        Event::PollFailed => Action::Finish(Outcome::PollFailed),
        Event::PollTimedOut { stopped } => if stopped {
            Action::Finish(Outcome::Stopped)
        } else {
            Action::Drain
        },
        Event::PollReady { stopped } => if stopped {
            Action::Finish(Outcome::Stopped)
        } else {
            Action::ReadCounter
        },
        Event::CounterRead => Action::Drain,
        Event::CounterFailed => Action::Finish(Outcome::CounterFailed),
        Event::Drained => Action::Notify,
        Event::DrainFailed => Action::Finish(Outcome::DrainFailed),
        Event::Notified => round_start(awaiting_loopback),
        Event::NotifyFailed => Action::Finish(Outcome::NotifyFailed),
    }
}

/// The state of the loop.
#[derive(Clone, Copy, Debug, PartialEq, Eq, Structural)]
pub struct EventLoop {
    /// Whether the loopback fabric is still being set up.
    pub awaiting_loopback: bool,
}

impl EventLoop {
    /// Starts the loop, with or without a loopback fabric that is being set up.
    pub fn start(awaiting_loopback: bool) -> (begun: (EventLoop, Action))
        ensures
            begun.0.awaiting_loopback == awaiting_loopback,
            begun.1 == round_start(awaiting_loopback),
    {
        let state = EventLoop { awaiting_loopback };
        let action = state.next_round();
        (state, action)
    }

    /// What comes first in the next round.
    fn next_round(&self) -> (action: Action)
        ensures
            action == round_start(self.awaiting_loopback),
    {
        if self.awaiting_loopback {
            Action::CheckLoopback
        } else {
            Action::Poll
        }
    }

    /// Decides what to do after `event`.
    ///
    /// The drain comes after a wait that timed out, too: commands that were queued
    /// before the UIO file was opened raise no interrupt.
    pub fn step(&mut self, event: Event) -> (action: Action)
        ensures
            action == reaction(old(self).awaiting_loopback, event),
            final(self).awaiting_loopback == (old(self).awaiting_loopback && event
                != Event::LoopbackReady),
    {
        match event {
            Event::LoopbackPending => Action::Poll,
            Event::LoopbackReady => {
                self.awaiting_loopback = false;
                Action::Poll
            },
            Event::LoopbackFailed => Action::Finish(Outcome::LoopbackFailed),
            Event::LoopbackLost => Action::Finish(Outcome::LoopbackLost),
            Event::PollInterrupted { stopped } => if stopped {
                Action::Finish(Outcome::Stopped)
            } else {
                self.next_round()
            },
            Event::PollFailed => Action::Finish(Outcome::PollFailed),
            Event::PollTimedOut { stopped } => if stopped {
                Action::Finish(Outcome::Stopped)
            } else {
                Action::Drain
            },
            Event::PollReady { stopped } => if stopped {
                Action::Finish(Outcome::Stopped)
            } else {
                Action::ReadCounter
            },
            Event::CounterRead => Action::Drain,
            Event::CounterFailed => Action::Finish(Outcome::CounterFailed),
            Event::Drained => Action::Notify,
            Event::DrainFailed => Action::Finish(Outcome::DrainFailed),
            Event::Notified => self.next_round(),
            Event::NotifyFailed => Action::Finish(Outcome::NotifyFailed),
        }
    }
}

impl Outcome {
    /// Whether others have to be told to stop, because the loop was left for another
    /// reason than being asked to.
    pub fn raises_stop(&self) -> (b: bool)
        ensures
            b == (*self != Outcome::Stopped && *self != Outcome::LoopbackPanicked),
    {
        match self {
            Outcome::Stopped => false,
            Outcome::LoopbackPanicked => false,
            _ => true,
        }
    }

    /// The outcome once whoever set up the loopback fabric has ended, by panic or not:
    /// a panic counts only where nothing else went wrong.
    pub fn after_join(self, panicked: bool) -> (outcome: Outcome)
        ensures
            outcome == (if self == Outcome::Stopped && panicked {
                Outcome::LoopbackPanicked
            } else {
                self
            }),
    {
        match self {
            Outcome::Stopped => if panicked {
                Outcome::LoopbackPanicked
            } else {
                Outcome::Stopped
            },
            other => other,
        }
    }
}

/// Whether an event says that the stop flag was seen raised.
pub open spec fn saw_stop(event: Event) -> bool {
    ||| event == (Event::PollInterrupted { stopped: true })
    ||| event == (Event::PollTimedOut { stopped: true })
    ||| event == (Event::PollReady { stopped: true })
}

/// The loop is left as asked exactly when the stop flag was seen raised; in particular
/// no entry is served after that.
pub proof fn stop_flag_ends_the_loop(awaiting_loopback: bool, event: Event)
    ensures
        saw_stop(event) <==> reaction(awaiting_loopback, event) == Action::Finish(
            Outcome::Stopped,
        ),
{
}

/// The kernel is told exactly after all entries were served.
pub proof fn kernel_is_told_after_draining(awaiting_loopback: bool, event: Event)
    ensures
        reaction(awaiting_loopback, event) == Action::Notify <==> event == Event::Drained,
{
}

/// The set-up of the loopback fabric is asked about only while it is pending.
pub proof fn settled_loopback_is_not_asked_about(event: Event)
    ensures
        reaction(false, event) != Action::CheckLoopback,
{
}

/// After a wait that ended without the stop flag the loop goes on to serve the ring,
/// whether the loopback fabric is pending or not: at once where no interrupt came, and
/// after the interrupt counter was read where one did.
pub proof fn waits_lead_to_draining(awaiting_loopback: bool)
    ensures
        reaction(awaiting_loopback, Event::PollTimedOut { stopped: false }) == Action::Drain,
        reaction(awaiting_loopback, Event::PollReady { stopped: false }) == Action::ReadCounter,
        reaction(awaiting_loopback, Event::CounterRead) == Action::Drain,
        reaction(awaiting_loopback, Event::Drained) == Action::Notify,
{
}

/// The ring is served exactly after a wait without an interrupt or after the counter was
/// read, and the counter is read exactly after a wait with an interrupt.
pub proof fn draining_follows_a_wait(awaiting_loopback: bool, event: Event)
    ensures
        reaction(awaiting_loopback, event) == Action::Drain <==> event == Event::CounterRead
            || event == (Event::PollTimedOut { stopped: false }),
        reaction(awaiting_loopback, event) == Action::ReadCounter <==> event == (Event::PollReady {
            stopped: false,
        }),
{
}

/// A round ends after the kernel was told, or with a wait that a signal ended; the next
/// starts with a look at the loopback fabric exactly while that is pending, and with a
/// wait otherwise. A look at a fabric that did not fail leads to a wait.
pub proof fn rounds_start_over(awaiting_loopback: bool)
    ensures
        awaiting_loopback ==> round_start(awaiting_loopback) == Action::CheckLoopback,
        !awaiting_loopback ==> round_start(awaiting_loopback) == Action::Poll,
        reaction(awaiting_loopback, Event::Notified) == round_start(awaiting_loopback),
        reaction(awaiting_loopback, Event::PollInterrupted { stopped: false }) == round_start(
            awaiting_loopback,
        ),
        reaction(awaiting_loopback, Event::LoopbackPending) == Action::Poll,
        reaction(awaiting_loopback, Event::LoopbackReady) == Action::Poll,
{
}

/// A look at the loopback fabric comes only at the start of a round.
pub proof fn loopback_is_looked_at_between_rounds(awaiting_loopback: bool, event: Event)
    ensures
        reaction(awaiting_loopback, event) == Action::CheckLoopback ==> awaiting_loopback && (event
            == Event::Notified || event == (Event::PollInterrupted { stopped: false })),
        reaction(awaiting_loopback, event) == Action::Poll ==> event == Event::LoopbackPending
            || event == Event::LoopbackReady || event == Event::Notified || event == (
        Event::PollInterrupted { stopped: false }),
{
}

/// Whether an event tells of a failure, and of which.
pub open spec fn failure_of(event: Event) -> Option<Outcome> {
    if event == Event::LoopbackFailed {
        Some(Outcome::LoopbackFailed)
    } else if event == Event::LoopbackLost {
        Some(Outcome::LoopbackLost)
    } else if event == Event::PollFailed {
        Some(Outcome::PollFailed)
    } else if event == Event::CounterFailed {
        Some(Outcome::CounterFailed)
    } else if event == Event::DrainFailed {
        Some(Outcome::DrainFailed)
    } else if event == Event::NotifyFailed {
        Some(Outcome::NotifyFailed)
    } else {
        None
    }
}

/// The loop is left exactly after a failure, with that failure as its outcome, or after
/// the stop flag was seen raised.
pub proof fn failures_end_the_loop(awaiting_loopback: bool, event: Event)
    ensures
        failure_of(event) matches Some(outcome) ==> reaction(awaiting_loopback, event)
            == Action::Finish(outcome) && outcome != Outcome::Stopped,
        reaction(awaiting_loopback, event) is Finish <==> failure_of(event) is Some || saw_stop(
            event,
        ),
{
}

} // verus!
