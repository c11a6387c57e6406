//! The depth attachment descriptor of a render target.

use vstd::prelude::*;
use crate::context::Command;
use crate::render_target::size_with_mip;
use crate::render_target::size_with_mip_spec;

verus! {

/// Identifies the image of a depth texture that a render target writes depth
/// into; the fields mirror [`crate::color_target::ColorTarget`]. Depth
/// textures carry no mip chain to regenerate, so a write ends without a mip
/// pass.
#[derive(Clone, Copy, Debug, PartialEq, Eq)]
pub struct DepthTarget {
    /// Handle of the backing texture.
    pub texture: u32,
    /// Width of the texture's base level, in pixels.
    pub texture_width: u32,
    /// Height of the texture's base level, in pixels.
    pub texture_height: u32,
    /// The layer (or cube face index), for array and cube textures.
    pub layer: Option<u32>,
    /// The mip level written to; `None` targets the base level.
    pub mip_level: Option<u32>,
}

impl DepthTarget {
    /// A meaningful descriptor: a targeted mip level is small enough that the
    /// scaled size is well defined.
    pub open spec fn wf(self) -> bool {
        self.mip_level is Some ==> self.mip_level->0 < 32
    }

    /// The width of the targeted image.
    pub open spec fn width_spec(self) -> int {
        size_with_mip_spec(self.texture_width, self.mip_level)
    }

    /// The height of the targeted image.
    pub open spec fn height_spec(self) -> int {
        size_with_mip_spec(self.texture_height, self.mip_level)
    }

    /// The width of the targeted image: the texture's base width scaled down
    /// by the targeted mip level.
    pub fn width(&self) -> (r: u32)
        requires
            self.wf(),
        ensures
            r == self.width_spec(),
    {
        size_with_mip(self.texture_width, self.mip_level)
    }

    /// The height of the targeted image.
    pub fn height(&self) -> (r: u32)
        requires
            self.wf(),
        ensures
            r == self.height_spec(),
    {
        size_with_mip(self.texture_height, self.mip_level)
    }

    /// The command that attaches this image to the bound framebuffer.
    pub open spec fn bind_command_spec(self) -> Command {
        Command::AttachDepth { texture: self.texture, layer: self.layer }
    }

    /// Attach this image to the framebuffer currently bound on the device.
    pub fn bind(&self) -> (r: Command)
        ensures
            r == self.bind_command_spec(),
    {
        Command::AttachDepth { texture: self.texture, layer: self.layer }
    }
}

} // verus!
