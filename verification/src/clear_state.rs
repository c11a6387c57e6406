//! Value types describing which channels a clear or a write touches.

use vstd::prelude::*;

verus! {

/// Which channels a clear affects and the value each one is cleared to.
///
/// A `None` field leaves that channel unchanged. The color and depth values
/// are carried as the raw 32-bit patterns of the platform's scalar type; this
/// core never computes with them, it only hands them to the device.
#[derive(Clone, Copy, Debug, PartialEq, Eq)]
pub struct ClearState {
    pub red: Option<u32>,
    pub green: Option<u32>,
    pub blue: Option<u32>,
    pub alpha: Option<u32>,
    pub depth: Option<u32>,
}

impl ClearState {
    /// A clear that changes nothing.
    pub fn none() -> (r: ClearState)
        ensures
            r == (ClearState { red: None, green: None, blue: None, alpha: None, depth: None }),
    {
        ClearState { red: None, green: None, blue: None, alpha: None, depth: None }
    }

    /// Whether applying this state clears the color buffer at all.
    pub open spec fn clears_color_spec(self) -> bool {
        self.red is Some || self.green is Some || self.blue is Some || self.alpha is Some
    }

    /// Whether applying this state clears the color buffer at all.
    pub fn clears_color(&self) -> (r: bool)
        ensures
            r == self.clears_color_spec(),
    {
        self.red.is_some() || self.green.is_some() || self.blue.is_some() || self.alpha.is_some()
    }

    /// Whether applying this state clears the depth buffer.
    pub fn clears_depth(&self) -> (r: bool)
        ensures
            r == self.depth is Some,
    {
        self.depth.is_some()
    }
}

impl Default for ClearState {
    /// The conventional full clear: color to opaque black, depth to the far
    /// plane (the bit patterns of 0.0 and 1.0).
    fn default() -> (r: ClearState)
        ensures
            r == (ClearState {
                red: Some(0),
                green: Some(0),
                blue: Some(0),
                alpha: Some(0x3F80_0000),
                depth: Some(0x3F80_0000),
            }),
    {
        ClearState {
            red: Some(0),
            green: Some(0),
            blue: Some(0),
            alpha: Some(0x3F80_0000),
            depth: Some(0x3F80_0000),
        }
    }
}

/// Which channels a draw pass is allowed to write.
#[derive(Clone, Copy, Debug, PartialEq, Eq, Structural)]
pub struct WriteMask {
    pub red: bool,
    pub green: bool,
    pub blue: bool,
    pub alpha: bool,
    pub depth: bool,
}

impl WriteMask {
    /// A mask that allows writing every color channel but not depth.
    pub fn color() -> (r: WriteMask)
        ensures
            r == (WriteMask { red: true, green: true, blue: true, alpha: true, depth: false }),
    {
        WriteMask { red: true, green: true, blue: true, alpha: true, depth: false }
    }

    /// A mask that allows writing only depth.
    pub fn depth() -> (r: WriteMask)
        ensures
            r == (WriteMask { red: false, green: false, blue: false, alpha: false, depth: true }),
    {
        WriteMask { red: false, green: false, blue: false, alpha: false, depth: true }
    }
}

impl Default for WriteMask {
    /// The permissive mask: every channel may be written.
    fn default() -> (r: WriteMask)
        ensures
            r == (WriteMask { red: true, green: true, blue: true, alpha: true, depth: true }),
    {
        WriteMask { red: true, green: true, blue: true, alpha: true, depth: true }
    }
}

} // verus!
