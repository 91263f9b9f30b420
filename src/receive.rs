//! One receive call on a channel's queue, as a state machine: the caller
//! waits on the queue or polls it as the session says, hands each outcome
//! back, and gets the frames once the session is done.

use vstd::prelude::*;

use crate::errors::{ReceiveError, ReceiveErrorKind};

verus! {

/// What the queue gave when it was waited on or polled.
pub enum QueueEvent {
    /// A frame.
    Frame(Vec<u8>),
    /// Nothing is queued right now.
    Empty,
    /// The producer ended: nothing more will come.
    Closed,
}

/// The spec counterpart of a [`QueueEvent`].
pub enum EventView {
    Frame(Seq<u8>),
    Empty,
    Closed,
}

impl QueueEvent {
    pub open spec fn view(&self) -> EventView {
        match self {
            QueueEvent::Frame(f) => EventView::Frame(f@),
            QueueEvent::Empty => EventView::Empty,
            QueueEvent::Closed => EventView::Closed,
        }
    }
}

/// What the caller does next.
#[derive(Debug, Clone, Copy, PartialEq, Eq, Structural)]
pub enum ReceiveStep {
    /// Wait until the queue yields a frame or closes.
    WaitForFrame,
    /// Take a frame if one is queued, without waiting.
    PollFrame,
    /// The session is over.
    Done,
}

/// The state of a session.
pub struct SessionView {
    pub blocking: bool,
    pub awaiting_first: bool,
    pub frames: Seq<Seq<u8>>,
    pub outcome: Option<Result<(), ReceiveErrorKind>>,
}

/// A new session: a blocking one waits for its first frame.
pub open spec fn session_start(blocking: bool) -> SessionView {
    SessionView { blocking, awaiting_first: blocking, frames: Seq::empty(), outcome: None }
}

/// The step a session in state `s` asks for.
pub open spec fn session_next(s: SessionView) -> ReceiveStep {
    if s.outcome is Some {
        ReceiveStep::Done
    } else if s.awaiting_first {
        ReceiveStep::WaitForFrame
    } else {
        ReceiveStep::PollFrame
    }
}

/// A session takes one event: a frame is kept (an empty one fails the call),
/// an empty queue ends the session unless it still waits for its first
/// frame, and a closed queue fails the call.
pub open spec fn session_step(s: SessionView, ev: EventView) -> SessionView {
    if s.outcome is Some {
        s
    } else {
        match ev {
            EventView::Frame(f) => if f.len() == 0 {
                SessionView { outcome: Some(Err(ReceiveErrorKind::EmptyFrame)), ..s }
            } else {
                SessionView { awaiting_first: false, frames: s.frames.push(f), ..s }
            },
            EventView::Empty => if s.awaiting_first {
                s
            } else {
                SessionView { outcome: Some(Ok(())), ..s }
            },
            EventView::Closed => SessionView { outcome: Some(Err(ReceiveErrorKind::ChannelClosed)), ..s },
        }
    }
}

/// A session handed `events` one after the other.
pub open spec fn session_run(s: SessionView, events: Seq<EventView>) -> SessionView
    decreases events.len(),
{
    if events.len() == 0 {
        s
    } else {
        session_run(session_step(s, events[0]), events.drop_first())
    }
}

/// The frames among `events`, in order.
pub open spec fn frames_in(events: Seq<EventView>) -> Seq<Seq<u8>>
    decreases events.len(),
{
    if events.len() == 0 {
        Seq::empty()
    } else {
        let rest = frames_in(events.drop_first());
        match events[0] {
            EventView::Frame(f) => seq![f] + rest,
            _ => rest,
        }
    }
}

/// The states a session passes through: one still waiting for its first
/// frame holds none and has not succeeded, and a blocking one past that
/// point holds at least one.
pub open spec fn session_wf(s: SessionView) -> bool {
    &&& s.awaiting_first ==> s.blocking && s.frames.len() == 0
    &&& s.blocking && !s.awaiting_first ==> s.frames.len() > 0
    &&& (s.outcome matches Some(Ok(_))) ==> !s.awaiting_first
}

/// Blocking semantics: a blocking receive succeeds only once it holds at
/// least one frame; whatever a session holds are frames of the events it was
/// handed, in order; and a non-blocking receive on an empty queue succeeds at
/// once with nothing.
pub proof fn lemma_receive_semantics(blocking: bool, events: Seq<EventView>)
    ensures
        ({
            let s = session_run(session_start(blocking), events);
            &&& (blocking && s.outcome matches Some(Ok(_))) ==> s.frames.len() > 0
            &&& frames_in(events).take(s.frames.len() as int) == s.frames
            &&& s.frames.len() <= frames_in(events).len()
        }),
        session_step(session_start(false), EventView::Empty) == (SessionView {
            blocking: false,
            awaiting_first: false,
            frames: Seq::empty(),
            outcome: Some(Ok(())),
        }),
{
    let s0 = session_start(blocking);
    let s = session_run(s0, events);
    lemma_run_wf(s0, events);
    lemma_run_frames(s0, events);
    assert(s0.frames.len() == 0);
    assert(s0.frames + frames_in(events).take(s.frames.len() as int) =~= frames_in(events).take(
        s.frames.len() as int,
    ));
    assert(frames_in(events).take(s.frames.len() as int) == s.frames);

}

proof fn lemma_run_wf(s: SessionView, events: Seq<EventView>)
    requires
        session_wf(s),
    ensures
        session_wf(session_run(s, events)),
        session_run(s, events).blocking == s.blocking,
    decreases events.len(),
{
    if events.len() > 0 {
        lemma_run_wf(session_step(s, events[0]), events.drop_first());
    }
}

proof fn lemma_run_frames(s: SessionView, events: Seq<EventView>)
    ensures
        ({
            let r = session_run(s, events);
            &&& s.frames.len() <= r.frames.len() <= s.frames.len() + frames_in(events).len()
            &&& r.frames == s.frames + frames_in(events).take(r.frames.len() - s.frames.len())
        }),
    decreases events.len(),
{
    if events.len() == 0 {
        assert(s.frames + frames_in(events).take(0) =~= s.frames);
    } else {
        let s1 = session_step(s, events[0]);
        let rest = events.drop_first();
        lemma_run_frames(s1, rest);
        let r = session_run(s1, rest);
        let fr = frames_in(rest);
        match events[0] {
            EventView::Frame(f) => {
                assert(frames_in(events) == seq![f] + fr);
                if s.outcome is None && f.len() > 0 {
                    assert(s1.frames == s.frames.push(f));
                    let k = r.frames.len() - s1.frames.len();
                    assert(r.frames =~= s.frames + (seq![f] + fr).take(k + 1));
                } else {
                    lemma_run_finished(s1, rest);
                    assert(r.frames =~= s.frames + frames_in(events).take(0));
                }
            },
            _ => {
                assert(frames_in(events) == fr);
            },
        }
    }
}

proof fn lemma_run_finished(s: SessionView, events: Seq<EventView>)
    requires
        s.outcome is Some,
    ensures
        session_run(s, events) == s,
    decreases events.len(),
{
    if events.len() > 0 {
        lemma_run_finished(session_step(s, events[0]), events.drop_first());
    }
}

/// One receive call in progress.
pub struct ReceiveSession {
    blocking: bool,
    awaiting_first: bool,
    frames: Vec<Vec<u8>>,
    outcome: Option<Result<(), ReceiveErrorKind>>,
}

impl ReceiveSession {
    pub closed spec fn view(&self) -> SessionView {
        SessionView {
            blocking: self.blocking,
            awaiting_first: self.awaiting_first,
            frames: self.frames@.map_values(|f: Vec<u8>| f@),
            outcome: self.outcome,
        }
    }

    /// Starts a receive call; a blocking one waits for its first frame.
    pub fn new(blocking: bool) -> (r: ReceiveSession)
        ensures
            r.view() == session_start(blocking),
    {
        let r = ReceiveSession { blocking, awaiting_first: blocking, frames: Vec::new(), outcome: None };
        assert(r.view().frames =~= Seq::<Seq<u8>>::empty());
        r
    }

    /// The step the session asks for.
    pub fn next_step(&self) -> (r: ReceiveStep)
        ensures
            r == session_next(self.view()),
    {
        match self.outcome {
            Some(_) => ReceiveStep::Done,
            None => if self.awaiting_first {
                ReceiveStep::WaitForFrame
            } else {
                ReceiveStep::PollFrame
            },
        }
    }

    /// Hands the session what the queue gave; returns the next step.
    pub fn on_event(&mut self, ev: QueueEvent) -> (r: ReceiveStep)
        ensures
            final(self).view() == session_step(old(self).view(), ev.view()),
            r == session_next(final(self).view()),
    {
        if self.outcome.is_some() {
            return ReceiveStep::Done;
        }
        match ev {
            QueueEvent::Frame(f) => {
                if f.len() == 0 {
                    self.outcome = Some(Err(ReceiveErrorKind::EmptyFrame));
                } else {
                    let ghost before = self.frames@;
                    let ghost fv = f@;
                    self.frames.push(f);
                    self.awaiting_first = false;
                    assert(self.frames@.map_values(|g: Vec<u8>| g@) =~= before.map_values(|g: Vec<u8>| g@).push(fv));
                }
            },
            QueueEvent::Empty => {
                if !self.awaiting_first {
                    self.outcome = Some(Ok(()));
                }
            },
            QueueEvent::Closed => {
                self.outcome = Some(Err(ReceiveErrorKind::ChannelClosed));
            },
        }
        self.next_step()
    }

    /// The frames of a finished session, or why it failed.
    pub fn finish(self) -> (r: Result<Vec<Vec<u8>>, ReceiveError>)
        requires
            self.view().outcome is Some,
        ensures
            self.view().outcome matches Some(Ok(_)) ==> (r matches Ok(fs) && fs@.map_values(|f: Vec<u8>| f@) == self.view().frames
                && fs@.len() == self.view().frames.len()),
            self.view().outcome matches Some(Err(k)) ==> (r matches Err(e) && e.kind == k),
    {
        match self.outcome {
            Some(Err(k)) => Err(ReceiveError::new(k)),
            _ => Ok(self.frames),
        }
    }
}

} // verus!
