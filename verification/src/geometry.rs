//! Pixel-space sizes and positions.

use vstd::prelude::*;
use vstd::std_specs::convert::FromSpecImpl;

verus! {

/// The size of a window's drawable area, in pixels.
#[derive(Debug, Clone, Copy, PartialEq, Eq, Structural)]
pub struct WindowSize {
    pub width: u32,
    pub height: u32,
}

/// A pair of pixel coordinates: a position on the screen (origin at the
/// bottom-left corner) or the extent of a rectangle.
#[derive(Debug, Clone, Copy, PartialEq, Eq, Structural)]
pub struct Vector2 {
    pub x: u32,
    pub y: u32,
}

impl Vector2 {
    pub fn new(x: u32, y: u32) -> (v: Vector2)
        ensures
            v == (Vector2 { x, y }),
    {
        Vector2 { x, y }
    }
}

impl From<(u32, u32)> for Vector2 {
    fn from(pair: (u32, u32)) -> (v: Vector2) {
        Vector2 { x: pair.0, y: pair.1 }
    }
}

impl FromSpecImpl<(u32, u32)> for Vector2 {
    open spec fn obeys_from_spec() -> bool {
        true
    }

    open spec fn from_spec(pair: (u32, u32)) -> Vector2 {
        Vector2 { x: pair.0, y: pair.1 }
    }
}

impl From<WindowSize> for Vector2 {
    fn from(size: WindowSize) -> (v: Vector2) {
        Vector2 { x: size.width, y: size.height }
    }
}

impl FromSpecImpl<WindowSize> for Vector2 {
    open spec fn obeys_from_spec() -> bool {
        true
    }

    open spec fn from_spec(size: WindowSize) -> Vector2 {
        Vector2 { x: size.width, y: size.height }
    }
}

impl From<Vector2> for WindowSize {
    fn from(v: Vector2) -> (size: WindowSize) {
        WindowSize { width: v.x, height: v.y }
    }
}

impl FromSpecImpl<Vector2> for WindowSize {
    open spec fn obeys_from_spec() -> bool {
        true
    }

    open spec fn from_spec(v: Vector2) -> WindowSize {
        WindowSize { width: v.x, height: v.y }
    }
}

} // verus!
