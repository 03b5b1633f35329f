//! A peak level meter for multi-channel audio.
//!
//! The crate holds the part of a meter that can be stated exactly:
//!
//! * [`aggregator`]: the running peak per channel, filled block by block and
//!   handed over by an exchange with a silent vector;
//! * [`interp`]: linear interpolation on integers;
//! * [`geometry`]: the slot of columns and the ladder of rows of every bar
//!   for a snapshot of levels and a window size;
//! * [`frame`]: the rectangles and grid lines of one frame, grouped by
//!   colour in drawing order;
//! * [`cache`]: the frame drawn last, to skip redraws that change nothing;
//! * [`render`]: the render loop as a state machine over display events;
//! * [`clock`]: the interval of the frame clock;
//! * [`ports`]: the mappings from source ports to channels and the course of
//!   the connection set-up;
//! * [`text`]: the levels as a line of text.
//!
//! Levels are whole numbers of thousandths of full scale
//! ([`aggregator::FULL_SCALE`] is 1.000): rounding a peak to three decimals
//! keeps the order of peaks, so the highest level is the level of the
//! highest peak. Pixel coordinates are integers. Nothing here reads a clock,
//! a device or a display: the caller feeds values in and carries the answers
//! out.

pub mod aggregator;
pub mod cache;
pub mod clock;
pub mod frame;
pub mod geometry;
pub mod interp;
pub mod ports;
pub mod render;
pub mod text;
