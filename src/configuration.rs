//! The size of the drawing surface.
use vstd::prelude::*;

verus! {

/// Width used when the terminal size cannot be read.
pub const FALLBACK_WIDTH: usize = 700;

/// Height used when the terminal size cannot be read.
pub const FALLBACK_HEIGHT: usize = 500;

/// The size of the drawing surface, in character cells.
pub struct Configuration {
    pub width: usize,
    pub height: usize,
    pub buffer_size: usize,
}

impl Configuration {
    /// Builds the configuration from the terminal's dimensions, as
    /// `(columns, rows)`, or from the fallback size when they are unknown.
    pub fn new(dimensions: Option<(usize, usize)>) -> (c: Configuration)
        requires
            dimensions matches Some((w, h)) ==> w * h <= usize::MAX,
        ensures
            match dimensions {
                Some((w, h)) => c.width == w && c.height == h,
                None => c.width == FALLBACK_WIDTH && c.height == FALLBACK_HEIGHT,
            },
            c.buffer_size == c.width * c.height,
    {
        match dimensions {
            Some((w, h)) => Configuration { width: w, height: h, buffer_size: w * h },
            None => Configuration {
                width: FALLBACK_WIDTH,
                height: FALLBACK_HEIGHT,
                buffer_size: FALLBACK_WIDTH * FALLBACK_HEIGHT,
            },
        }
    }

    /// A configuration of no cells at all.
    pub fn empty() -> (c: Configuration)
        ensures
            c.width == 0,
            c.height == 0,
            c.buffer_size == 0,
    {
        Configuration { width: 0, height: 0, buffer_size: 0 }
    }
}

} // verus!
