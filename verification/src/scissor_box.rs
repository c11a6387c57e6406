//! Rectangular regions: the scissor box that constrains which pixels an
//! operation affects, and the viewport handed to a copy pass.

use vstd::prelude::*;

verus! {

/// A rectangle (in pixels) constraining which part of a render target an
/// operation affects.
#[derive(Clone, Copy, Debug, PartialEq, Eq, Structural)]
pub struct ScissorBox {
    pub x: i32,
    pub y: i32,
    pub width: u32,
    pub height: u32,
}

impl ScissorBox {
    /// The scissor box that covers a whole target of the given size.
    pub fn new_at_origo(width: u32, height: u32) -> (r: ScissorBox)
        ensures
            r == (ScissorBox { x: 0, y: 0, width, height }),
    {
        ScissorBox { x: 0, y: 0, width, height }
    }
}

/// The rectangle a draw pass renders into.
#[derive(Clone, Copy, Debug, PartialEq, Eq, Structural)]
pub struct Viewport {
    pub x: i32,
    pub y: i32,
    pub width: u32,
    pub height: u32,
}

impl From<ScissorBox> for Viewport {
    /// A scissor box converts to the viewport covering the same rectangle.
    fn from(b: ScissorBox) -> (r: Viewport) {
        Viewport { x: b.x, y: b.y, width: b.width, height: b.height }
    }
}

impl vstd::std_specs::convert::FromSpecImpl<ScissorBox> for Viewport {
    open spec fn obeys_from_spec() -> bool {
        true
    }

    open spec fn from_spec(b: ScissorBox) -> Viewport {
        Viewport { x: b.x, y: b.y, width: b.width, height: b.height }
    }
}

} // verus!
