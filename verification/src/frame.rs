//! From bars to draw primitives: filled rectangles grouped by colour, and
//! the fixed grid lines.

use crate::aggregator::Level;
use crate::geometry::{
    bar_segments_at, lemma_ladder_descends, lemma_slot_boundary_range, level_row, row_of_level,
    Band, BarSegment, WindowGeometry,
};
use vstd::prelude::*;

verus! {

/// The colours of the meter. Each stands for a drawing context that the
/// display side resolves once.
#[derive(Clone, Copy, Debug, PartialEq, Eq, Structural)]
pub enum ColorBand {
    Background,
    MeterHigh,
    MeterMed,
    MeterLow,
    GridLow,
    GridMed1,
    GridMed2,
    GridHigh,
}

/// A filled rectangle: its top left pixel and its size.
#[derive(Clone, Copy, Debug, PartialEq, Eq, Structural)]
pub struct Rect {
    pub x: i32,
    pub y: i32,
    pub width: u32,
    pub height: u32,
}

/// A horizontal line from `(x0, y)` to `(x1, y)`, both ends included.
#[derive(Clone, Copy, Debug, PartialEq, Eq, Structural)]
pub struct GridLine {
    pub x0: i32,
    pub x1: i32,
    pub y: i32,
    pub color: ColorBand,
}

/// The rectangles of one colour, to be filled in one batch.
#[derive(Debug)]
pub struct Fill {
    pub color: ColorBand,
    pub rects: Vec<Rect>,
}

/// Everything one frame draws, in drawing order: the fills, then the grid.
#[derive(Debug)]
pub struct Frame {
    pub fills: Vec<Fill>,
    pub grid: Vec<GridLine>,
}

/// The bands in the order in which a frame fills them.
pub open spec fn band_order() -> Seq<Band> {
    seq![Band::Background, Band::High, Band::Med, Band::Low]
}

/// The colour in which a band is filled.
pub open spec fn band_color(band: Band) -> ColorBand {
    match band {
        Band::Background => ColorBand::Background,
        Band::High => ColorBand::MeterHigh,
        Band::Med => ColorBand::MeterMed,
        Band::Low => ColorBand::MeterLow,
    }
}

/// The height of `band` in the bar `segment`; zero or less where the band
/// does not show.
pub open spec fn band_height(segment: BarSegment, band: Band) -> int {
    segment.ladder.lower(band) - segment.ladder.upper(band)
}

/// The rectangle that `band` contributes to the bar `segment`: none where
/// the band's height is zero or less.
pub open spec fn band_rect(segment: BarSegment, band: Band) -> Option<Rect> {
    if band_height(segment, band) > 0 {
        Some(
            Rect {
                x: segment.x_start,
                y: segment.ladder.upper(band) as i32,
                width: segment.columns() as u32,
                height: band_height(segment, band) as u32,
            },
        )
    } else {
        None
    }
}

/// The rectangles of `band` over all bars, in the order of the bars.
pub open spec fn band_rects_at(segments: Seq<BarSegment>, band: Band) -> Seq<Rect>
    decreases segments.len(),
{
    if segments.len() == 0 {
        Seq::empty()
    } else {
        let before = band_rects_at(segments.drop_last(), band);
        match band_rect(segments.last(), band) {
            Some(rect) => before.push(rect),
            None => before,
        }
    }
}

/// The levels at which the grid lines lie, bottom to top, each with its
/// colour.
pub open spec fn grid_marks() -> Seq<(Level, ColorBand)> {
    seq![
        (250u32, ColorBand::GridLow),
        (500u32, ColorBand::GridLow),
        (700u32, ColorBand::GridMed1),
        (830u32, ColorBand::GridMed1),
        (900u32, ColorBand::GridMed2),
        (960u32, ColorBand::GridHigh),
    ]
}

/// The grid line of the mark `(level, color)` in `window`: across the full
/// width on the row of the level.
pub open spec fn grid_line_at(window: WindowGeometry, mark: (Level, ColorBand)) -> GridLine {
    GridLine {
        x0: 0,
        x1: (window.width - 1) as i32,
        y: level_row(window.height as int, mark.0) as i32,
        color: mark.1,
    }
}

/// The six grid lines of `window`. They depend on its size alone.
pub open spec fn grid_lines_at(window: WindowGeometry) -> Seq<GridLine> {
    Seq::new(grid_marks().len(), |k: int| grid_line_at(window, grid_marks()[k]))
}

/// The slot of every bar is narrow enough for a rectangle's width.
pub open spec fn columns_fit(segments: Seq<BarSegment>) -> bool {
    forall|i: int| 0 <= i < segments.len() ==> (#[trigger] segments[i]).columns() <= u32::MAX
}

impl Frame {
    /// This frame is the drawing of the bars `segments` in `window`: one
    /// fill per band in the order background, high, medium, low, each with
    /// the band's rectangles from the leftmost bar to the rightmost, and
    /// then the grid.
    pub open spec fn shows(&self, segments: Seq<BarSegment>, window: WindowGeometry) -> bool {
        &&& self.fills@.len() == band_order().len()
        &&& forall|k: int|
            0 <= k < band_order().len() ==> {
                &&& (#[trigger] self.fills@[k]).color == band_color(band_order()[k])
                &&& self.fills@[k].rects@ == band_rects_at(segments, band_order()[k])
            }
        &&& self.grid@ == grid_lines_at(window)
    }
}

impl Band {
    /// The colour in which this band is filled.
    pub fn color(self) -> (color: ColorBand)
        ensures
            color == band_color(self),
    {
        match self {
            Band::Background => ColorBand::Background,
            Band::High => ColorBand::MeterHigh,
            Band::Med => ColorBand::MeterMed,
            Band::Low => ColorBand::MeterLow,
        }
    }
}

/// The rectangle that `band` contributes to the bar `segment`, if any.
pub fn band_rectangle(segment: &BarSegment, band: Band) -> (rect: Option<Rect>)
    requires
        segment.columns() <= u32::MAX,
    ensures
        rect == band_rect(*segment, band),
{
    let rows = segment.ladder.span(band);
    let height: i64 = rows.1 as i64 - rows.0 as i64;
    if height > 0 {
        let width: i64 = if segment.x_end >= segment.x_start {
            segment.x_end as i64 - segment.x_start as i64 + 1
        } else {
            0
        };
        Some(Rect { x: segment.x_start, y: rows.0, width: width as u32, height: height as u32 })
    } else {
        None
    }
}

/// The rectangles of `band` over all bars, leftmost bar first.
pub fn band_rectangles(segments: &Vec<BarSegment>, band: Band) -> (rects: Vec<Rect>)
    requires
        columns_fit(segments@),
    ensures
        rects@ == band_rects_at(segments@, band),
{
    let mut rects: Vec<Rect> = Vec::new();
    let mut i: usize = 0;
    assert(segments@.take(0) =~= Seq::<BarSegment>::empty());
    while i < segments.len()
        invariant
            i <= segments@.len(),
            columns_fit(segments@),
            rects@ == band_rects_at(segments@.take(i as int), band),
        decreases segments@.len() - i,
    {
        proof {
            let upto = segments@.take(i + 1);
            assert(upto.drop_last() =~= segments@.take(i as int));
            assert(upto.last() == segments@[i as int]);
        }
        match band_rectangle(&segments[i], band) {
            Some(rect) => {
                rects.push(rect);
            },
            None => {},
        }
        i += 1;
    }
    assert(segments@.take(i as int) =~= segments@);
    rects
}

/// The six grid lines of `window`.
pub fn grid_lines(window: WindowGeometry) -> (lines: Vec<GridLine>)
    ensures
        lines@ == grid_lines_at(window),
{
    let x1: i32 = window.width as i32 - 1;
    let h: u16 = window.height;
    let mut lines: Vec<GridLine> = Vec::with_capacity(6);
    lines.push(GridLine { x0: 0, x1, y: row_of_level(h, 250), color: ColorBand::GridLow });
    lines.push(GridLine { x0: 0, x1, y: row_of_level(h, 500), color: ColorBand::GridLow });
    lines.push(GridLine { x0: 0, x1, y: row_of_level(h, 700), color: ColorBand::GridMed1 });
    lines.push(GridLine { x0: 0, x1, y: row_of_level(h, 830), color: ColorBand::GridMed1 });
    lines.push(GridLine { x0: 0, x1, y: row_of_level(h, 900), color: ColorBand::GridMed2 });
    lines.push(GridLine { x0: 0, x1, y: row_of_level(h, 960), color: ColorBand::GridHigh });
    assert(lines@ =~= grid_lines_at(window));
    lines
}

/// Draws the bars `segments` in `window`: the rectangles of all bars
/// grouped by band, then the grid.
pub fn compose_frame(segments: &Vec<BarSegment>, window: WindowGeometry) -> (frame: Frame)
    requires
        columns_fit(segments@),
    ensures
        frame.shows(segments@, window),
{
    let mut fills: Vec<Fill> = Vec::with_capacity(4);
    fills.push(
        Fill { color: Band::Background.color(), rects: band_rectangles(segments, Band::Background) },
    );
    fills.push(Fill { color: Band::High.color(), rects: band_rectangles(segments, Band::High) });
    fills.push(Fill { color: Band::Med.color(), rects: band_rectangles(segments, Band::Med) });
    fills.push(Fill { color: Band::Low.color(), rects: band_rectangles(segments, Band::Low) });
    Frame { fills, grid: grid_lines(window) }
}

/// The bars computed for a window have slots that fit a rectangle, ladders
/// that descend through the window, and four bands whose heights add up to
/// the window's height.
pub proof fn lemma_computed_bars_fit(levels: Seq<Level>, window: WindowGeometry)
    ensures
        columns_fit(bar_segments_at(levels, window)),
        forall|i: int|
            0 <= i < levels.len() ==> {
                let segment = #[trigger] bar_segments_at(levels, window)[i];
                &&& segment.ladder.descends_within(window.height as int)
                &&& 0 <= segment.x_start
                &&& segment.x_end < window.width || window.width == 0
                &&& band_height(segment, Band::Background) + band_height(segment, Band::High)
                    + band_height(segment, Band::Med) + band_height(segment, Band::Low)
                    == window.height
            },
{
    let segments = bar_segments_at(levels, window);
    let n = levels.len() as int;
    assert forall|i: int| 0 <= i < segments.len() implies {
        let segment = #[trigger] segments[i];
        &&& segment.columns() <= u32::MAX
        &&& segment.ladder.descends_within(window.height as int)
        &&& 0 <= segment.x_start
        &&& segment.x_end < window.width || window.width == 0
    } by {
        lemma_slot_boundary_range(window.width, i, n);
        lemma_slot_boundary_range(window.width, i + 1, n);
        lemma_ladder_descends(levels[i], window.height);
    }
}

/// Every rectangle of the bars computed for a window with at least one
/// column lies inside the window.
pub proof fn lemma_rectangles_lie_in_the_window(
    levels: Seq<Level>,
    window: WindowGeometry,
    i: int,
    band: Band,
)
    requires
        0 <= i < levels.len(),
        window.width >= 1,
    ensures
        band_rect(bar_segments_at(levels, window)[i], band) matches Some(rect) ==> {
            &&& 0 <= rect.x
            &&& rect.x + rect.width <= window.width
            &&& 0 <= rect.y
            &&& rect.y + rect.height <= window.height
        },
{
    let n = levels.len() as int;
    lemma_slot_boundary_range(window.width, i, n);
    lemma_slot_boundary_range(window.width, i + 1, n);
    lemma_ladder_descends(levels[i], window.height);
}

} // verus!
