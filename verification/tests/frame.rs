use vu_meter::frame::{
    band_rectangle, band_rectangles, compose_frame, grid_lines, ColorBand, GridLine, Rect,
};
use vu_meter::geometry::{bar_segments, Band, BarSegment, Ladder, WindowGeometry};

fn window() -> WindowGeometry {
    WindowGeometry { width: 100, height: 200 }
}

#[test]
fn bands_have_their_colours() {
    assert_eq!(Band::Background.color(), ColorBand::Background);
    assert_eq!(Band::High.color(), ColorBand::MeterHigh);
    assert_eq!(Band::Med.color(), ColorBand::MeterMed);
    assert_eq!(Band::Low.color(), ColorBand::MeterLow);
}

#[test]
fn a_band_without_height_has_no_rectangle() {
    let bar = BarSegment {
        x_start: 0,
        x_end: 49,
        ladder: Ladder { top: 0, peak: 100, med: 100, low: 100, bottom: 200 },
    };
    assert_eq!(
        band_rectangle(&bar, Band::Background),
        Some(Rect { x: 0, y: 0, width: 50, height: 100 })
    );
    assert_eq!(band_rectangle(&bar, Band::High), None);
    assert_eq!(band_rectangle(&bar, Band::Med), None);
    assert_eq!(
        band_rectangle(&bar, Band::Low),
        Some(Rect { x: 0, y: 100, width: 50, height: 100 })
    );
}

#[test]
fn a_band_with_negative_height_has_no_rectangle() {
    let bar = BarSegment {
        x_start: 3,
        x_end: 5,
        ladder: Ladder { top: 0, peak: 50, med: 40, low: 60, bottom: 100 },
    };
    assert_eq!(band_rectangle(&bar, Band::High), None);
    assert_eq!(
        band_rectangle(&bar, Band::Med),
        Some(Rect { x: 3, y: 40, width: 3, height: 20 })
    );
}

#[test]
fn an_empty_slot_gives_a_rectangle_without_width() {
    let bar = BarSegment {
        x_start: 2,
        x_end: 1,
        ladder: Ladder { top: 0, peak: 0, med: 0, low: 0, bottom: 10 },
    };
    assert_eq!(
        band_rectangle(&bar, Band::Low),
        Some(Rect { x: 2, y: 0, width: 0, height: 10 })
    );
}

#[test]
fn rectangles_of_a_band_come_left_to_right() {
    let bars = bar_segments(&vec![950, 100, 920], WindowGeometry { width: 30, height: 100 });
    assert_eq!(
        band_rectangles(&bars, Band::High),
        vec![
            Rect { x: 0, y: 5, width: 10, height: 5 },
            Rect { x: 20, y: 8, width: 10, height: 2 },
        ]
    );
    assert_eq!(
        band_rectangles(&bars, Band::Low),
        vec![
            Rect { x: 0, y: 30, width: 10, height: 70 },
            Rect { x: 10, y: 90, width: 10, height: 10 },
            Rect { x: 20, y: 30, width: 10, height: 70 },
        ]
    );
}

#[test]
fn grid_lines_of_a_window() {
    let expected = vec![
        GridLine { x0: 0, x1: 99, y: 150, color: ColorBand::GridLow },
        GridLine { x0: 0, x1: 99, y: 100, color: ColorBand::GridLow },
        GridLine { x0: 0, x1: 99, y: 60, color: ColorBand::GridMed1 },
        GridLine { x0: 0, x1: 99, y: 34, color: ColorBand::GridMed1 },
        GridLine { x0: 0, x1: 99, y: 20, color: ColorBand::GridMed2 },
        GridLine { x0: 0, x1: 99, y: 8, color: ColorBand::GridHigh },
    ];
    assert_eq!(grid_lines(window()), expected);
}

#[test]
fn grid_lines_do_not_depend_on_levels() {
    let quiet = compose_frame(&bar_segments(&vec![0, 0], window()), window());
    let loud = compose_frame(&bar_segments(&vec![1000, 1000], window()), window());
    assert_eq!(quiet.grid, loud.grid);
    assert_eq!(quiet.grid, grid_lines(window()));
}

#[test]
fn frame_of_two_channels_in_a_hundred_by_two_hundred() {
    let bars = bar_segments(&vec![500, 950], window());
    let frame = compose_frame(&bars, window());
    assert_eq!(frame.fills.len(), 4);

    assert_eq!(frame.fills[0].color, ColorBand::Background);
    assert_eq!(
        frame.fills[0].rects,
        vec![
            Rect { x: 0, y: 0, width: 50, height: 100 },
            Rect { x: 50, y: 0, width: 50, height: 10 },
        ]
    );
    // channel 0 lies below the medium threshold: it shows the low band only
    assert_eq!(frame.fills[1].color, ColorBand::MeterHigh);
    assert_eq!(frame.fills[1].rects, vec![Rect { x: 50, y: 10, width: 50, height: 10 }]);
    assert_eq!(frame.fills[2].color, ColorBand::MeterMed);
    assert_eq!(frame.fills[2].rects, vec![Rect { x: 50, y: 20, width: 50, height: 40 }]);
    assert_eq!(frame.fills[3].color, ColorBand::MeterLow);
    assert_eq!(
        frame.fills[3].rects,
        vec![
            Rect { x: 0, y: 100, width: 50, height: 100 },
            Rect { x: 50, y: 60, width: 50, height: 140 },
        ]
    );
    assert_eq!(frame.grid.len(), 6);
}

#[test]
fn the_bands_of_a_bar_fill_its_slot() {
    let window = WindowGeometry { width: 64, height: 333 };
    let levels: Vec<u32> = vec![0, 1, 699, 700, 701, 899, 900, 901, 1000, 4000];
    let bars = bar_segments(&levels, window);
    for bar in &bars {
        let mut row: i64 = 0;
        for band in [Band::Background, Band::High, Band::Med, Band::Low] {
            if let Some(rect) = band_rectangle(bar, band) {
                assert_eq!(rect.y as i64, row);
                assert_eq!(rect.x, bar.x_start);
                assert_eq!(rect.width as i64, (bar.x_end - bar.x_start + 1) as i64);
                row += rect.height as i64;
            }
        }
        assert_eq!(row, 333);
    }
}

#[test]
fn frame_without_channels_has_empty_fills() {
    let frame = compose_frame(&Vec::new(), window());
    assert_eq!(frame.fills.len(), 4);
    for fill in &frame.fills {
        assert!(fill.rects.is_empty());
    }
    assert_eq!(frame.grid.len(), 6);
}
