//! The decisions of the event loop.

use tcmu::event_loop::{Action, Event, EventLoop, Outcome};

#[test]
fn rounds_without_a_loopback_fabric() {
    let (mut state, first) = EventLoop::start(false);
    assert_eq!(first, Action::Poll);
    assert_eq!(state.step(Event::PollReady { stopped: false }), Action::ReadCounter);
    assert_eq!(state.step(Event::CounterRead), Action::Drain);
    assert_eq!(state.step(Event::Drained), Action::Notify);
    assert_eq!(state.step(Event::Notified), Action::Poll);
    // Commands may wait in the ring without an interrupt.
    assert_eq!(state.step(Event::PollTimedOut { stopped: false }), Action::Drain);
    assert_eq!(state.step(Event::PollInterrupted { stopped: false }), Action::Poll);
}

#[test]
fn loopback_is_awaited_until_it_is_there() {
    let (mut state, first) = EventLoop::start(true);
    assert_eq!(first, Action::CheckLoopback);
    assert_eq!(state.step(Event::LoopbackPending), Action::Poll);
    assert_eq!(state.step(Event::PollInterrupted { stopped: false }), Action::CheckLoopback);
    assert_eq!(state.step(Event::LoopbackReady), Action::Poll);
    assert!(!state.awaiting_loopback);
    assert_eq!(state.step(Event::Notified), Action::Poll);
}

#[test]
fn stop_is_obeyed_after_every_wait() {
    for event in [
        Event::PollInterrupted { stopped: true },
        Event::PollTimedOut { stopped: true },
        Event::PollReady { stopped: true },
    ] {
        let (mut state, _) = EventLoop::start(false);
        assert_eq!(state.step(event), Action::Finish(Outcome::Stopped));
    }
    assert!(!Outcome::Stopped.raises_stop());
}

#[test]
fn failures_end_the_loop_and_raise_stop() {
    for (event, outcome) in [
        (Event::LoopbackFailed, Outcome::LoopbackFailed),
        (Event::LoopbackLost, Outcome::LoopbackLost),
        (Event::PollFailed, Outcome::PollFailed),
        (Event::CounterFailed, Outcome::CounterFailed),
        (Event::DrainFailed, Outcome::DrainFailed),
        (Event::NotifyFailed, Outcome::NotifyFailed),
    ] {
        let (mut state, _) = EventLoop::start(true);
        assert_eq!(state.step(event), Action::Finish(outcome));
        assert!(outcome.raises_stop());
        // A panic of the set-up does not hide what went wrong first.
        assert_eq!(outcome.after_join(true), outcome);
    }
    assert_eq!(Outcome::Stopped.after_join(true), Outcome::LoopbackPanicked);
    assert_eq!(Outcome::Stopped.after_join(false), Outcome::Stopped);
    assert!(!Outcome::LoopbackPanicked.raises_stop());
}
