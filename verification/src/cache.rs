//! The frame drawn last, kept to skip a redraw that would change nothing.

use crate::aggregator::Level;
use crate::geometry::{bar_segments_at, slot_end, BarSegment, WindowGeometry};
use crate::interp::lemma_interp_between;
use vstd::prelude::*;

verus! {

/// What the cache knows of the frame drawn last: the levels it showed and
/// the bars it was made of.
pub struct LastDrawn {
    pub levels: Seq<Level>,
    pub segments: Seq<BarSegment>,
}

/// The record of a frame that shows `levels` in `window`.
pub open spec fn drawn(levels: Seq<Level>, window: WindowGeometry) -> LastDrawn {
    LastDrawn { levels, segments: bar_segments_at(levels, window) }
}

/// Whether a redraw request must be honoured. A genuine request always
/// must: the surface may have lost its pixels. A synthetic one need not when
/// the levels are exactly those drawn last and the bars would come out the
/// same.
pub open spec fn redraw_needed(
    last: Option<LastDrawn>,
    levels: Seq<Level>,
    window: WindowGeometry,
    is_synthetic: bool,
) -> bool {
    !is_synthetic || match last {
        None => true,
        Some(frame) => frame.levels != levels || frame.segments != bar_segments_at(levels, window),
    }
}

/// The cache after a redraw request for `levels` has been handled to the
/// end: the new frame where one was drawn, the old one where it was skipped.
pub open spec fn after_redraw(
    last: Option<LastDrawn>,
    levels: Seq<Level>,
    window: WindowGeometry,
    is_synthetic: bool,
) -> Option<LastDrawn> {
    if redraw_needed(last, levels, window, is_synthetic) {
        Some(drawn(levels, window))
    } else {
        last
    }
}

/// The levels and bars of the frame drawn last.
///
/// The bars it holds are always those of the levels and the window it
/// holds, so a skipped redraw leaves nothing stale.
pub struct FrameDiffCache {
    levels: Vec<Level>,
    window: WindowGeometry,
    segments: Vec<BarSegment>,
    filled: bool,
}

impl View for FrameDiffCache {
    type V = Option<LastDrawn>;

    closed spec fn view(&self) -> Option<LastDrawn> {
        if self.filled {
            Some(LastDrawn { levels: self.levels@, segments: self.segments@ })
        } else {
            None
        }
    }
}

/// Whether two vectors hold the same levels.
pub fn same_levels(a: &Vec<Level>, b: &Vec<Level>) -> (same: bool)
    ensures
        same == (a@ == b@),
{
    if a.len() != b.len() {
        return false;
    }
    let mut i: usize = 0;
    while i < a.len()
        invariant
            a@.len() == b@.len(),
            i <= a@.len(),
            forall|k: int| 0 <= k < i ==> a@[k] == b@[k],
        decreases a@.len() - i,
    {
        if a[i] != b[i] {
            return false;
        }
        i += 1;
    }
    assert(a@ =~= b@);
    true
}

impl FrameDiffCache {
    /// The cache holds the bars of the levels and the window it holds.
    #[verifier::type_invariant]
    closed spec fn consistent(&self) -> bool {
        self.filled ==> self.segments@ == bar_segments_at(self.levels@, self.window)
    }

    /// A cache that has seen no frame.
    pub fn new() -> (cache: Self)
        ensures
            cache@ is None,
    {
        FrameDiffCache {
            levels: Vec::new(),
            window: WindowGeometry { width: 0, height: 0 },
            segments: Vec::new(),
            filled: false,
        }
    }

    /// Whether the request to redraw `new_levels` in `window` must be
    /// honoured. Where it answers no, the cache already holds exactly the
    /// frame that drawing would produce.
    pub fn should_draw(
        &self,
        new_levels: &Vec<Level>,
        window: WindowGeometry,
        is_synthetic: bool,
    ) -> (draw: bool)
        ensures
            draw == redraw_needed(self@, new_levels@, window, is_synthetic),
            !draw ==> self@ == Some(drawn(new_levels@, window)),
    {
        proof {
            use_type_invariant(self);
        }
        if !is_synthetic || !self.filled {
            return true;
        }
        if !same_levels(&self.levels, new_levels) {
            return true;
        }
        let unchanged = new_levels.len() == 0 || (window.width == self.window.width
            && window.height == self.window.height);
        proof {
            if new_levels@.len() == 0 {
                assert(self.segments@ =~= bar_segments_at(new_levels@, window));
            } else if bar_segments_at(new_levels@, self.window) == bar_segments_at(
                new_levels@,
                window,
            ) {
                lemma_bars_tell_the_window(new_levels@, self.window, window);
            }
        }
        !unchanged
    }

    /// Takes note of a frame that has been drawn in full.
    pub fn record(&mut self, levels: Vec<Level>, window: WindowGeometry, segments: Vec<BarSegment>)
        requires
            segments@ == bar_segments_at(levels@, window),
        ensures
            final(self)@ == Some(drawn(levels@, window)),
    {
        *self = FrameDiffCache { levels, window, segments, filled: true };
    }

    /// Whether a frame has been recorded.
    pub fn holds_frame(&self) -> (held: bool)
        ensures
            held == (self@ is Some),
    {
        self.filled
    }

    /// The bars of the frame drawn last, none before the first frame.
    pub fn segments(&self) -> (segments: Option<&Vec<BarSegment>>)
        ensures
            match segments {
                Some(bars) => self@ matches Some(frame) && bars@ == frame.segments,
                None => self@ is None,
            },
    {
        if self.filled {
            Some(&self.segments)
        } else {
            None
        }
    }
}

/// The bars of one or more channels give away the window they were made
/// for: the last slot ends on its last column, every ladder on its bottom
/// edge.
pub proof fn lemma_bars_tell_the_window(levels: Seq<Level>, one: WindowGeometry, other: WindowGeometry)
    requires
        levels.len() > 0,
        bar_segments_at(levels, one) == bar_segments_at(levels, other),
    ensures
        one == other,
{
    let n = levels.len() as int;
    let a = bar_segments_at(levels, one);
    let b = bar_segments_at(levels, other);
    assert(a[n - 1].x_end == b[n - 1].x_end);
    assert(a[0].ladder.bottom == b[0].ladder.bottom);
    lemma_interp_between(0, one.width - 1, n, n);
    lemma_interp_between(0, other.width - 1, n, n);
    assert(slot_end(one.width as int, n - 1, n) == one.width - 1);
    assert(slot_end(other.width as int, n - 1, n) == other.width - 1);
}

/// Of two synthetic redraw requests in a row for the same levels in the
/// same window, the second is skipped, whatever the cache held before the
/// first.
pub proof fn lemma_second_synthetic_request_skips(
    last: Option<LastDrawn>,
    levels: Seq<Level>,
    window: WindowGeometry,
)
    ensures
        !redraw_needed(after_redraw(last, levels, window, true), levels, window, true),
        after_redraw(after_redraw(last, levels, window, true), levels, window, true)
            == after_redraw(last, levels, window, true),
{
}

/// A genuine redraw request is honoured whatever the cache holds, also for
/// the very levels drawn last.
pub proof fn lemma_genuine_request_draws(
    last: Option<LastDrawn>,
    levels: Seq<Level>,
    window: WindowGeometry,
)
    ensures
        redraw_needed(last, levels, window, false),
        redraw_needed(Some(drawn(levels, window)), levels, window, false),
{
}

/// After a skipped request the cache holds exactly what drawing would have
/// recorded.
pub proof fn lemma_skip_leaves_nothing_stale(
    last: Option<LastDrawn>,
    levels: Seq<Level>,
    window: WindowGeometry,
    is_synthetic: bool,
)
    requires
        !redraw_needed(last, levels, window, is_synthetic),
    ensures
        last == Some(drawn(levels, window)),
        after_redraw(last, levels, window, is_synthetic) == Some(drawn(levels, window)),
{
}

} // verus!
