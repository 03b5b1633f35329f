//! The render loop as a state machine: it is told what happened and answers
//! what to do next. Waiting, reading the levels and drawing are left to the
//! caller.

use crate::aggregator::Level;
use crate::cache::{after_redraw, drawn, redraw_needed, FrameDiffCache, LastDrawn};
use crate::frame::{compose_frame, lemma_computed_bars_fit, Frame};
use crate::geometry::{bar_segments, bar_segments_at, WindowGeometry};
use vstd::prelude::*;

verus! {

/// What the display reports.
#[derive(Clone, Copy, Debug, PartialEq, Eq, Structural)]
pub enum Event {
    /// The surface wants painting: because it lost pixels, or, if
    /// `synthetic`, because the frame clock ticked.
    Redraw { synthetic: bool },
    /// The surface has a new size.
    Resize { width: u16, height: u16 },
    /// Anything else.
    Other,
}

/// What the caller of [`RenderLoop::on_event`] does next.
#[derive(Clone, Copy, Debug, PartialEq, Eq, Structural)]
pub enum Step {
    /// Read the levels and hand them to [`RenderLoop::on_snapshot`].
    TakeSnapshot,
    /// Wait for the next event.
    Wait,
}

/// Where the loop stands between two calls.
pub enum Phase {
    /// Nothing is under way.
    WaitEvent,
    /// A redraw was requested and the levels have not come in yet.
    Redraw { synthetic: bool },
    /// A frame was handed out and has not been reported drawn yet.
    Drawing { frame: LastDrawn },
}

/// The state of the loop as contracts see it.
pub struct LoopState {
    pub window: WindowGeometry,
    pub last: Option<LastDrawn>,
    pub phase: Phase,
}

/// The state after `event`. Whatever was under way is dropped: a frame
/// that was not reported drawn never reaches the cache. A redraw request
/// waits for the levels, a new size is taken over, anything else is ignored.
pub open spec fn after_event(state: LoopState, event: Event) -> LoopState {
    match event {
        Event::Redraw { synthetic } => LoopState { phase: Phase::Redraw { synthetic }, ..state },
        Event::Resize { width, height } => LoopState {
            window: WindowGeometry { width, height },
            phase: Phase::WaitEvent,
            ..state
        },
        Event::Other => LoopState { phase: Phase::WaitEvent, ..state },
    }
}

/// What the caller does after `event`.
pub open spec fn step_for(event: Event) -> Step {
    match event {
        Event::Redraw { .. } => Step::TakeSnapshot,
        _ => Step::Wait,
    }
}

/// Whether the levels `levels`, coming in now, are drawn.
pub open spec fn draws(state: LoopState, levels: Seq<Level>) -> bool {
    state.phase matches Phase::Redraw { synthetic } && redraw_needed(
        state.last,
        levels,
        state.window,
        synthetic,
    )
}

/// The state after the levels `levels` have come in. With a redraw
/// requested they are drawn or skipped; with none requested they are
/// ignored.
pub open spec fn after_snapshot(state: LoopState, levels: Seq<Level>) -> LoopState {
    match state.phase {
        Phase::Redraw { synthetic } => if redraw_needed(
            state.last,
            levels,
            state.window,
            synthetic,
        ) {
            LoopState { phase: Phase::Drawing { frame: drawn(levels, state.window) }, ..state }
        } else {
            LoopState { phase: Phase::WaitEvent, ..state }
        },
        _ => state,
    }
}

/// The state after the frame handed out was drawn in full: the cache takes
/// it over. With no frame handed out nothing changes.
pub open spec fn after_drawn(state: LoopState) -> LoopState {
    match state.phase {
        Phase::Drawing { frame } => LoopState { last: Some(frame), phase: Phase::WaitEvent, ..state },
        _ => state,
    }
}

/// What is under way, with the data it needs.
enum Work {
    Nothing,
    Requested { synthetic: bool },
    /// The frame handed out, as the cache will hold it once it is drawn.
    Handed { next: FrameDiffCache },
}

/// The render loop: the window's size, the cache of the frame drawn last,
/// and what is under way.
pub struct RenderLoop {
    window: WindowGeometry,
    cache: FrameDiffCache,
    work: Work,
}

impl View for RenderLoop {
    type V = LoopState;

    closed spec fn view(&self) -> LoopState {
        LoopState {
            window: self.window,
            last: self.cache@,
            phase: match self.work {
                Work::Nothing => Phase::WaitEvent,
                Work::Requested { synthetic } => Phase::Redraw { synthetic },
                Work::Handed { next } => match next@ {
                    Some(frame) => Phase::Drawing { frame },
                    None => Phase::WaitEvent,
                },
            },
        }
    }
}

impl RenderLoop {
    /// A loop for a window of the given size that has drawn nothing yet.
    pub fn new(window: WindowGeometry) -> (render: Self)
        ensures
            render@ == (LoopState { window, last: None, phase: Phase::WaitEvent }),
    {
        RenderLoop { window, cache: FrameDiffCache::new(), work: Work::Nothing }
    }

    /// The size of the window as last reported.
    pub fn window(&self) -> (window: WindowGeometry)
        ensures
            window == self@.window,
    {
        self.window
    }

    /// Takes in an event of the display and says what to do next.
    pub fn on_event(&mut self, event: Event) -> (step: Step)
        ensures
            final(self)@ == after_event(old(self)@, event),
            step == step_for(event),
    {
        match event {
            Event::Redraw { synthetic } => {
                self.work = Work::Requested { synthetic };
                Step::TakeSnapshot
            },
            Event::Resize { width, height } => {
                self.work = Work::Nothing;
                self.window = WindowGeometry { width, height };
                Step::Wait
            },
            Event::Other => {
                self.work = Work::Nothing;
                Step::Wait
            },
        }
    }

    /// Takes in the levels read for a requested redraw. Hands out the frame
    /// to draw, or nothing where the request is skipped or none was made.
    pub fn on_snapshot(&mut self, levels: Vec<Level>) -> (frame: Option<Frame>)
        ensures
            final(self)@ == after_snapshot(old(self)@, levels@),
            match frame {
                Some(frame) => draws(old(self)@, levels@) && frame.shows(
                    bar_segments_at(levels@, old(self)@.window),
                    old(self)@.window,
                ),
                None => !draws(old(self)@, levels@),
            },
    {
        let synthetic = match self.work {
            Work::Requested { synthetic } => synthetic,
            _ => {
                return None;
            },
        };
        let window = self.window;
        if self.cache.should_draw(&levels, window, synthetic) {
            let segments = bar_segments(&levels, window);
            proof {
                lemma_computed_bars_fit(levels@, window);
            }
            let frame = compose_frame(&segments, window);
            let mut next = FrameDiffCache::new();
            next.record(levels, window, segments);
            self.work = Work::Handed { next };
            Some(frame)
        } else {
            self.work = Work::Nothing;
            None
        }
    }

    /// Takes note that the frame handed out was drawn in full.
    pub fn on_drawn(&mut self)
        ensures
            final(self)@ == after_drawn(old(self)@),
    {
        let mut work = Work::Nothing;
        std::mem::swap(&mut work, &mut self.work);
        match work {
            Work::Handed { next } => {
                if next.holds_frame() {
                    self.cache = next;
                }
            },
            other => {
                self.work = other;
            },
        }
    }
}

/// A redraw request that runs its course (the event, the levels, and the
/// drawing where there is any) leaves the loop waiting, with the cache that
/// the request calls for.
pub proof fn lemma_redraw_runs_its_course(state: LoopState, synthetic: bool, levels: Seq<Level>)
    ensures
        ({
            let requested = after_event(state, Event::Redraw { synthetic });
            let done = after_drawn(after_snapshot(requested, levels));
            &&& done.phase is WaitEvent
            &&& done.window == state.window
            &&& done.last == after_redraw(state.last, levels, state.window, synthetic)
            &&& draws(requested, levels) == redraw_needed(
                state.last,
                levels,
                state.window,
                synthetic,
            )
        }),
{
}

/// Of two synthetic redraw requests in a row that run their course with the
/// same levels, the second draws nothing.
pub proof fn lemma_second_synthetic_redraw_is_skipped(state: LoopState, levels: Seq<Level>)
    ensures
        ({
            let tick = Event::Redraw { synthetic: true };
            let once = after_drawn(after_snapshot(after_event(state, tick), levels));
            &&& !draws(after_event(once, tick), levels)
            &&& after_drawn(after_snapshot(after_event(once, tick), levels)) == once
        }),
{
}

/// A genuine redraw request draws whatever was drawn before, also the very
/// levels drawn last.
pub proof fn lemma_genuine_redraw_draws(state: LoopState, levels: Seq<Level>)
    ensures
        draws(after_event(state, Event::Redraw { synthetic: false }), levels),
{
}

/// A new size does not by itself ask for a frame, and no event but a redraw
/// request does.
pub proof fn lemma_only_redraw_draws(state: LoopState, event: Event, levels: Seq<Level>)
    requires
        !(event is Redraw),
    ensures
        !draws(after_event(state, event), levels),
        after_snapshot(after_event(state, event), levels) == after_event(state, event),
        after_event(state, event).last == state.last,
{
}

} // verus!
