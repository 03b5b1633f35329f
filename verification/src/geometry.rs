//! From levels and a window size to bars: one slot of columns per channel,
//! one ladder of rows per level.

use crate::aggregator::{Level, FULL_SCALE};
use crate::interp::{interp, interp_at, lemma_interp_between, lemma_interp_monotone};
use vstd::arithmetic::div_mod::{
    lemma_div_is_ordered, lemma_div_multiples_vanish, lemma_fundamental_div_mod,
    lemma_fundamental_div_mod_converse, lemma_mod_bound,
};
use vstd::prelude::*;

verus! {

/// The size of the display surface in pixels.
#[derive(Clone, Copy, Debug, PartialEq, Eq, Structural)]
pub struct WindowGeometry {
    pub width: u16,
    pub height: u16,
}

/// From this level on a bar shows its medium band.
pub const MED_THRESHOLD: Level = 700;

/// From this level on a bar shows its high band.
pub const HIGH_THRESHOLD: Level = 900;

/// The `i`-th of the `n + 1` boundaries that cut the columns `0..=width - 1`
/// into `n` slots.
pub open spec fn slot_boundary(width: int, i: int, n: int) -> int {
    interp_at(0, width - 1, i, n)
}

/// The first column of slot `i` of `n`: column 0 for the first slot, one past
/// the boundary it shares with its left neighbour for the others.
pub open spec fn slot_start(width: int, i: int, n: int) -> int {
    if i == 0 {
        0
    } else {
        slot_boundary(width, i, n) + 1
    }
}

/// The last column of slot `i` of `n`: the boundary it shares with its right
/// neighbour.
pub open spec fn slot_end(width: int, i: int, n: int) -> int {
    slot_boundary(width, i + 1, n)
}

/// A level as the geometry reads it: what lies above full scale counts as
/// full scale.
pub open spec fn clipped(level: Level) -> int {
    if level < FULL_SCALE {
        level as int
    } else {
        FULL_SCALE as int
    }
}

/// The row of a level in a window `height` rows high. Rows count downward:
/// level 0 lies on the bottom edge `height`, full scale on row 0.
pub open spec fn level_row(height: int, level: Level) -> int {
    interp_at(height, 0, clipped(level), FULL_SCALE as int)
}

/// The five rows that delimit the four stacked bands of one bar, top to
/// bottom: background from `top` to `peak`, high band from `peak` to `med`,
/// medium band from `med` to `low`, low band from `low` to `bottom`.
#[derive(Clone, Copy, Debug, PartialEq, Eq, Structural)]
pub struct Ladder {
    pub top: i32,
    pub peak: i32,
    pub med: i32,
    pub low: i32,
    pub bottom: i32,
}

/// One of the four stacked regions of a bar.
#[derive(Clone, Copy, Debug, PartialEq, Eq, Structural)]
pub enum Band {
    Background,
    High,
    Med,
    Low,
}

impl Ladder {
    /// The row on which `band` begins.
    pub open spec fn upper(self, band: Band) -> int {
        match band {
            Band::Background => self.top as int,
            Band::High => self.peak as int,
            Band::Med => self.med as int,
            Band::Low => self.low as int,
        }
    }

    /// The row before which `band` ends.
    pub open spec fn lower(self, band: Band) -> int {
        match band {
            Band::Background => self.peak as int,
            Band::High => self.med as int,
            Band::Med => self.low as int,
            Band::Low => self.bottom as int,
        }
    }

    /// No rung lies above the one before it, and all lie in the window.
    pub open spec fn descends_within(self, height: int) -> bool {
        0 == self.top <= self.peak <= self.med <= self.low <= self.bottom == height
    }

    /// The rows `(upper, lower)` between which `band` lies.
    pub fn span(&self, band: Band) -> (rows: (i32, i32))
        ensures
            rows.0 == self.upper(band),
            rows.1 == self.lower(band),
    {
        match band {
            Band::Background => (self.top, self.peak),
            Band::High => (self.peak, self.med),
            Band::Med => (self.med, self.low),
            Band::Low => (self.low, self.bottom),
        }
    }
}

/// The ladder of a bar at `level` in a window `height` rows high.
///
/// Below [`MED_THRESHOLD`] only the low band shows, from the peak down. From
/// there up to [`HIGH_THRESHOLD`] the medium band lies between the peak and
/// the row of the medium threshold. From [`HIGH_THRESHOLD`] on the high band
/// lies between the peak and the row of the high threshold.
pub open spec fn ladder_at(level: Level, height: u16) -> Ladder {
    let peak = level_row(height as int, level) as i32;
    let med_row = level_row(height as int, MED_THRESHOLD) as i32;
    let high_row = level_row(height as int, HIGH_THRESHOLD) as i32;
    if level < MED_THRESHOLD {
        Ladder { top: 0, peak, med: peak, low: peak, bottom: height as i32 }
    } else if level < HIGH_THRESHOLD {
        Ladder { top: 0, peak, med: peak, low: med_row, bottom: height as i32 }
    } else {
        Ladder { top: 0, peak, med: high_row, low: med_row, bottom: height as i32 }
    }
}

/// The bar of one channel in one frame: its slot of columns, both ends
/// included, and its ladder of rows.
#[derive(Clone, Copy, Debug, PartialEq, Eq, Structural)]
pub struct BarSegment {
    pub x_start: i32,
    pub x_end: i32,
    pub ladder: Ladder,
}

impl BarSegment {
    /// The number of columns in the slot.
    pub open spec fn columns(self) -> int {
        if self.x_end >= self.x_start {
            self.x_end - self.x_start + 1
        } else {
            0
        }
    }
}

/// The bar of channel `i` for the levels `levels` in `window`.
pub open spec fn bar_segment_at(levels: Seq<Level>, window: WindowGeometry, i: int) -> BarSegment {
    BarSegment {
        x_start: slot_start(window.width as int, i, levels.len() as int) as i32,
        x_end: slot_end(window.width as int, i, levels.len() as int) as i32,
        ladder: ladder_at(levels[i], window.height),
    }
}

/// The bars of all channels, left to right.
pub open spec fn bar_segments_at(levels: Seq<Level>, window: WindowGeometry) -> Seq<BarSegment> {
    Seq::new(levels.len(), |i: int| bar_segment_at(levels, window, i))
}

/// The columns `(first, last)` of the slot of channel `channel` among
/// `channel_count` channels in a window `width` columns wide.
pub fn slot(width: u16, channel: usize, channel_count: usize) -> (columns: (i32, i32))
    requires
        channel < channel_count,
    ensures
        columns.0 == slot_start(width as int, channel as int, channel_count as int),
        columns.1 == slot_end(width as int, channel as int, channel_count as int),
{
    proof {
        lemma_slot_boundary_range(width, channel as int, channel_count as int);
        lemma_slot_boundary_range(width, channel + 1, channel_count as int);
    }
    let last_column: i32 = width as i32 - 1;
    let first: i32 = if channel == 0 {
        0
    } else {
        interp(0, last_column, channel as u64, channel_count as u64) + 1
    };
    let last: i32 = interp(0, last_column, channel as u64 + 1, channel_count as u64);
    (first, last)
}

/// The row of `level` in a window `height` rows high.
pub fn row_of_level(height: u16, level: Level) -> (row: i32)
    ensures
        row == level_row(height as int, level),
        0 <= row <= height,
{
    proof {
        lemma_level_row_range(height, level);
    }
    let seen: Level = if level < FULL_SCALE {
        level
    } else {
        FULL_SCALE
    };
    interp(height as i32, 0, seen as u64, FULL_SCALE as u64)
}

/// The ladder of a bar at `level` in a window `height` rows high.
pub fn ladder(level: Level, height: u16) -> (rungs: Ladder)
    ensures
        rungs == ladder_at(level, height),
        rungs.descends_within(height as int),
{
    proof {
        lemma_ladder_descends(level, height);
    }
    let peak: i32 = row_of_level(height, level);
    let bottom: i32 = height as i32;
    if level < MED_THRESHOLD {
        Ladder { top: 0, peak, med: peak, low: peak, bottom }
    } else if level < HIGH_THRESHOLD {
        let low: i32 = row_of_level(height, MED_THRESHOLD);
        Ladder { top: 0, peak, med: peak, low, bottom }
    } else {
        let med: i32 = row_of_level(height, HIGH_THRESHOLD);
        let low: i32 = row_of_level(height, MED_THRESHOLD);
        Ladder { top: 0, peak, med, low, bottom }
    }
}

/// The bars of all channels for one snapshot of levels, left to right: the
/// channel count is the number of levels.
pub fn bar_segments(levels: &Vec<Level>, window: WindowGeometry) -> (segments: Vec<BarSegment>)
    ensures
        segments@ == bar_segments_at(levels@, window),
{
    let n: usize = levels.len();
    let mut segments: Vec<BarSegment> = Vec::with_capacity(n);
    let mut i: usize = 0;
    while i < n
        invariant
            n == levels@.len(),
            i <= n,
            segments@.len() == i,
            forall|k: int| 0 <= k < i ==> segments@[k] == bar_segment_at(levels@, window, k),
        decreases n - i,
    {
        let columns = slot(window.width, i, n);
        let rungs = ladder(levels[i], window.height);
        segments.push(BarSegment { x_start: columns.0, x_end: columns.1, ladder: rungs });
        i += 1;
    }
    assert(segments@ =~= bar_segments_at(levels@, window));
    segments
}


/// A boundary lies on the window's columns, or on column -1 or 0 of a
/// window without columns.
pub proof fn lemma_slot_boundary_range(width: u16, i: int, n: int)
    requires
        0 <= i <= n,
        0 < n,
    ensures
        -1 <= slot_boundary(width as int, i, n) <= 65534,
        width >= 1 ==> 0 <= slot_boundary(width as int, i, n) <= width - 1,
{
    lemma_interp_between(0, width - 1, i, n);
}

/// The row of a level lies in the window.
pub proof fn lemma_level_row_range(height: u16, level: Level)
    ensures
        0 <= level_row(height as int, level) <= height,
        level == 0 ==> level_row(height as int, level) == height,
        level >= FULL_SCALE ==> level_row(height as int, level) == 0,
{
    lemma_interp_between(height as int, 0, clipped(level), FULL_SCALE as int);
}

/// A higher level never lies on a lower row.
pub proof fn lemma_level_row_monotone(height: u16, level: Level, higher: Level)
    requires
        level <= higher,
    ensures
        level_row(height as int, higher) <= level_row(height as int, level),
{
    lemma_interp_monotone(height as int, 0, clipped(level), clipped(higher), FULL_SCALE as int);
}

/// Every ladder runs from row 0 down to the bottom edge without stepping
/// back, so the four bands of a bar tile its slot from top to bottom.
pub proof fn lemma_ladder_descends(level: Level, height: u16)
    ensures
        ladder_at(level, height).descends_within(height as int),
        ladder_at(level, height).peak == level_row(height as int, level),
{
    lemma_level_row_range(height, level);
    lemma_level_row_range(height, MED_THRESHOLD);
    lemma_level_row_range(height, HIGH_THRESHOLD);
    lemma_level_row_monotone(height, MED_THRESHOLD, HIGH_THRESHOLD);
    if level >= MED_THRESHOLD {
        lemma_level_row_monotone(height, MED_THRESHOLD, level);
    }
    if level >= HIGH_THRESHOLD {
        lemma_level_row_monotone(height, HIGH_THRESHOLD, level);
    }
}

/// At the medium threshold itself the ladder is that of the medium branch:
/// the medium band reaches from the peak to the row of the threshold, there
/// is no high band, and the medium band is empty exactly when the peak lies
/// on the threshold's row, as it does at the threshold.
pub proof fn lemma_medium_threshold_boundary(level: Level, height: u16)
    requires
        MED_THRESHOLD <= level < HIGH_THRESHOLD,
    ensures
        ladder_at(level, height).med == ladder_at(level, height).peak,
        ladder_at(level, height).low == level_row(height as int, MED_THRESHOLD),
        ladder_at(level, height).lower(Band::Med) - ladder_at(level, height).upper(Band::Med) == 0
            <==> level_row(height as int, level) == level_row(height as int, MED_THRESHOLD),
        ladder_at(MED_THRESHOLD, height).low == ladder_at(MED_THRESHOLD, height).peak,
{
    lemma_level_row_range(height, level);
    lemma_level_row_range(height, MED_THRESHOLD);
}

/// The slots of `n` channels tile the columns of a window: the first starts
/// at column 0, the last ends at column `width - 1`, each of the others
/// starts one column after its left neighbour ends, and the boundaries never
/// step back. With no more channels than columns, every slot holds at least
/// one column.
pub proof fn lemma_slots_tile_the_width(width: u16, n: int)
    requires
        1 <= width,
        1 <= n,
    ensures
        slot_start(width as int, 0, n) == 0,
        slot_end(width as int, n - 1, n) == width - 1,
        forall|i: int|
            0 <= i < n - 1 ==> #[trigger] slot_start(width as int, i + 1, n) == slot_end(
                width as int,
                i,
                n,
            ) + 1,
        forall|i: int, j: int|
            0 <= i <= j <= n ==> #[trigger] slot_boundary(width as int, i, n)
                <= #[trigger] slot_boundary(width as int, j, n),
        n <= width ==> forall|i: int|
            0 <= i < n ==> #[trigger] slot_start(width as int, i, n) <= slot_end(width as int, i, n),
{
    lemma_interp_between(0, width - 1, n, n);
    assert forall|i: int, j: int| 0 <= i <= j <= n implies #[trigger] slot_boundary(
        width as int,
        i,
        n,
    ) <= #[trigger] slot_boundary(width as int, j, n) by {
        lemma_interp_monotone(0, width - 1, i, j, n);
    }
    if n <= width {
        assert forall|i: int| 0 <= i < n implies #[trigger] slot_start(width as int, i, n)
            <= slot_end(width as int, i, n) by {
            lemma_slot_is_inhabited(width, i, n);
        }
    }
}

/// The bars computed for a window with columns tile its width: the first
/// bar starts at column 0, the last ends at the last column, and each of
/// the others starts one column after its left neighbour ends.
pub proof fn lemma_bars_tile_the_width(levels: Seq<Level>, window: WindowGeometry)
    requires
        levels.len() >= 1,
        window.width >= 1,
    ensures
        bar_segments_at(levels, window)[0].x_start == 0,
        bar_segments_at(levels, window)[levels.len() - 1].x_end == window.width - 1,
        forall|i: int|
            0 <= i < levels.len() - 1 ==> (#[trigger] bar_segments_at(levels, window)[i + 1]).x_start
                == bar_segments_at(levels, window)[i].x_end + 1,
{
    let n = levels.len() as int;
    lemma_slots_tile_the_width(window.width, n);
    assert forall|i: int| 0 <= i < n - 1 implies (#[trigger] bar_segments_at(levels, window)[i
        + 1]).x_start == bar_segments_at(levels, window)[i].x_end + 1 by {
        lemma_slot_boundary_range(window.width, i + 1, n);
        assert(slot_start(window.width as int, i + 1, n) == slot_end(window.width as int, i, n)
            + 1);
    }
    lemma_slot_boundary_range(window.width, n, n);
}

/// With no more channels than columns a slot is not empty.
proof fn lemma_slot_is_inhabited(width: u16, i: int, n: int)
    requires
        1 <= n <= width,
        0 <= i < n,
    ensures
        slot_start(width as int, i, n) <= slot_end(width as int, i, n),
{
    let w = width as int - 1;
    lemma_interp_between(0, w, i + 1, n);
    if i > 0 {
        lemma_interp_between(0, w, i, n);
        lemma_boundary_quotient(w, i, n);
        lemma_boundary_quotient(w, i + 1, n);
        let q = (w * i) / n;
        let r = (w * i) % n;
        lemma_fundamental_div_mod(w * i, n);
        lemma_mod_bound(w * i, n);
        if w >= n {
            // one more step adds at least `n` to the numerator
            assert(w * (i + 1) >= n * (q + 1) + r) by (nonlinear_arith)
                requires
                    w * i == n * q + r,
                    w >= n,
            ;
            lemma_div_is_ordered(n * (q + 1), w * (i + 1), n);
            lemma_div_multiples_vanish(q + 1, n);
            assert(n * (q + 1) == (q + 1) * n) by (nonlinear_arith);
        } else {
            // as many channels as columns: boundary `k` is column `k - 1`
            assert(w == n - 1);
            assert(w * i == (i - 1) * n + (n - i)) by (nonlinear_arith)
                requires
                    w == n - 1,
            ;
            lemma_fundamental_div_mod_converse(w * i, n, i - 1, n - i);
            assert(w * (i + 1) == i * n + (n - i - 1)) by (nonlinear_arith)
                requires
                    w == n - 1,
            ;
            lemma_fundamental_div_mod_converse(w * (i + 1), n, i, n - i - 1);
        }
    }
}

/// A boundary of a window with columns is the floor of `(width - 1) * i / n`.
proof fn lemma_boundary_quotient(w: int, i: int, n: int)
    requires
        0 <= w,
        0 <= i,
        0 < n,
    ensures
        interp_at(0, w, i, n) == (w * i) / n,
{
    assert(w * i >= 0) by (nonlinear_arith)
        requires
            0 <= w,
            0 <= i,
    ;
}

/// Every column of the window lies in the slot of exactly one channel.
pub proof fn lemma_column_has_one_slot(width: u16, n: int, x: int) -> (i: int)
    requires
        1 <= n,
        0 <= x < width,
    ensures
        0 <= i < n,
        slot_start(width as int, i, n) <= x <= slot_end(width as int, i, n),
        forall|j: int|
            0 <= j < n && #[trigger] slot_start(width as int, j, n) <= x <= slot_end(
                width as int,
                j,
                n,
            ) ==> j == i,
{
    let i = lemma_find_slot(width, n, x, 0);
    lemma_slots_tile_the_width(width, n);
    assert forall|j: int|
        0 <= j < n && #[trigger] slot_start(width as int, j, n) <= x <= slot_end(
            width as int,
            j,
            n,
        ) implies j == i by {
        if j < i {
            lemma_interp_monotone(0, width - 1, j + 1, i, n);
        } else if i < j {
            lemma_interp_monotone(0, width - 1, i + 1, j, n);
        }
    }
    i
}

/// The first slot from `from` on that holds column `x`.
proof fn lemma_find_slot(width: u16, n: int, x: int, from: int) -> (i: int)
    requires
        0 <= from < n,
        slot_start(width as int, from, n) <= x < width,
    ensures
        from <= i < n,
        slot_start(width as int, i, n) <= x <= slot_end(width as int, i, n),
    decreases n - from,
{
    if x <= slot_end(width as int, from, n) {
        from
    } else {
        lemma_interp_between(0, width - 1, n, n);
        lemma_find_slot(width, n, x, from + 1)
    }
}

} // verus!
