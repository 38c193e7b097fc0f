//! A terminal "digital rain" animation library.
//!
//! The crate models the rendering engine of a falling-character screensaver:
//! a glyph table for large clock digits, composable drawable widgets that
//! report the screen cells they occupy, and a per-lane column animator that
//! emits minimal incremental cell updates while avoiding reserved cells.
//! All rendering is expressed as abstract terminal write commands; the
//! surrounding binary turns those into actual escape sequences.

use vstd::prelude::*;

pub mod column;
pub mod drawing;
pub mod fonts;
mod rng;
pub mod screen;
pub mod session;

verus! {

/// A widget footprint. By crate convention a drawable of height `h`
/// may occupy up to `h + 1` terminal rows (the bound is inclusive),
/// which is how the composition arithmetic of frames and blanks lines up.
#[derive(Copy, Clone, PartialEq, Eq, Structural, Debug)]
pub struct Size {
    pub height: u16,
    pub width: u16,
}

impl Size {
    pub fn height(&self) -> (h: u16)
        ensures
            h == self.height,
    {
        self.height
    }

    pub fn width(&self) -> (w: u16)
        ensures
            w == self.width,
    {
        self.width
    }

    pub fn from(h: u16, w: u16) -> (s: Size)
        ensures
            s.height == h,
            s.width == w,
    {
        Size { height: h, width: w }
    }
}

} // verus!
