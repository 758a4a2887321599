//! The life of one playback: which frames are drawn, and when the run is
//! closed and the audio side is told to stop.

use vstd::prelude::*;

verus! {

/// Where a playback stands.
#[derive(Clone, Copy, Debug, PartialEq, Eq, Structural)]
pub enum Playback {
    /// No frame has been read yet.
    Opening,
    /// Frames are being drawn.
    Running,
    /// The run is over: the stop signal has been sent.
    Closed,
}

/// What the frame loop meets.
#[derive(Clone, Copy, Debug, PartialEq, Eq, Structural)]
pub enum Event {
    /// The decoder handed over a frame.
    Frame,
    /// The decoder has no more frames.
    EndOfStream,
    /// A frame could not be drawn or written.
    RenderFailed,
    /// The user interrupted the run.
    Interrupt,
}

/// What the frame loop has to do next.
#[derive(Clone, Copy, Debug, PartialEq, Eq, Structural)]
pub enum Action {
    /// Drop the frame.
    Skip,
    /// Draw the frame.
    Render,
    /// Leave the loop: send the stop signal to the audio side, once, and
    /// restore the terminal.
    Finish,
    /// Nothing: the run is over already.
    Nothing,
}

impl Event {
    /// The event ends the frame loop.
    pub open spec fn ends_run(self) -> bool {
        self != Event::Frame
    }
}

/// The state after `event`, and what is to be done for it. The first frame
/// of a run is dropped, every later one is drawn; whatever ends the loop
/// closes the run; a closed run stays closed and asks for nothing more.
pub open spec fn step_spec(state: Playback, event: Event) -> (Playback, Action) {
    match state {
        Playback::Closed => (Playback::Closed, Action::Nothing),
        Playback::Opening => if event == Event::Frame {
            (Playback::Running, Action::Skip)
        } else {
            (Playback::Closed, Action::Finish)
        },
        Playback::Running => if event == Event::Frame {
            (Playback::Running, Action::Render)
        } else {
            (Playback::Closed, Action::Finish)
        },
    }
}

/// The state that a run in `state` is in after the events of `trace`.
pub open spec fn state_after(state: Playback, trace: Seq<Event>) -> Playback
    decreases trace.len(),
{
    if trace.len() == 0 {
        state
    } else {
        step_spec(state_after(state, trace.drop_last()), trace.last()).0
    }
}

/// The number of stop signals that a run in `state` sends over the events
/// of `trace`.
pub open spec fn stop_signals(state: Playback, trace: Seq<Event>) -> nat
    decreases trace.len(),
{
    if trace.len() == 0 {
        0
    } else {
        let before = stop_signals(state, trace.drop_last());
        if step_spec(state_after(state, trace.drop_last()), trace.last()).1 == Action::Finish {
            before + 1
        } else {
            before
        }
    }
}

impl Playback {
    /// A run before its first frame.
    pub fn new() -> (state: Playback)
        ensures
            state == Playback::Opening,
    {
        Playback::Opening
    }

    /// Takes one event: moves to the next state and says what to do.
    pub fn step(&mut self, event: Event) -> (action: Action)
        ensures
            (*final(self), action) == step_spec(*old(self), event),
    {
        match *self {
            Playback::Closed => Action::Nothing,
            Playback::Opening => {
                if event == Event::Frame {
                    *self = Playback::Running;
                    Action::Skip
                } else {
                    *self = Playback::Closed;
                    Action::Finish
                }
            },
            Playback::Running => {
                if event == Event::Frame {
                    Action::Render
                } else {
                    *self = Playback::Closed;
                    Action::Finish
                }
            },
        }
    }

    /// The run is over.
    pub fn is_closed(&self) -> (closed: bool)
        ensures
            closed == (*self == Playback::Closed),
    {
        *self == Playback::Closed
    }
}

/// Over any events a run sends the stop signal at most once: exactly once
/// if one of the events ends the frame loop, and then the run is closed;
/// not at all before that, and then it is still open.
pub proof fn lemma_stop_signal_sent_once(trace: Seq<Event>)
    ensures
        (exists|i: int| 0 <= i < trace.len() && #[trigger] trace[i].ends_run()) ==> stop_signals(
            Playback::Opening,
            trace,
        ) == 1 && state_after(Playback::Opening, trace) == Playback::Closed,
        (forall|i: int| 0 <= i < trace.len() ==> !#[trigger] trace[i].ends_run()) ==> stop_signals(
            Playback::Opening,
            trace,
        ) == 0 && state_after(Playback::Opening, trace) != Playback::Closed,
    decreases trace.len(),
{
    if trace.len() > 0 {
        let head = trace.drop_last();
        lemma_stop_signal_sent_once(head);
        if exists|i: int| 0 <= i < head.len() && #[trigger] head[i].ends_run() {
            let i = choose|i: int| 0 <= i < head.len() && #[trigger] head[i].ends_run();
            assert(trace[i].ends_run());
        } else if trace.last().ends_run() {
            assert(trace[trace.len() - 1].ends_run());
        } else {
            assert forall|i: int| 0 <= i < trace.len() implies !#[trigger] trace[i].ends_run() by {
                if i < head.len() {
                    assert(head[i] == trace[i]);
                }
            }
        }
    }
}

} // verus!
