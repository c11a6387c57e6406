//! The color attachment descriptor of a render target.

use vstd::prelude::*;
use crate::context::Command;
use crate::render_target::size_with_mip;
use crate::render_target::size_with_mip_spec;

verus! {

/// Identifies the image of a color texture that a render target draws into:
/// the texture, the layer (or cube face) within it if it is an array, and the
/// mip level, `None` meaning the base level with regeneration of the chain
/// after writes.
///
/// The texture itself lives on the device; this descriptor carries the facts
/// about it that the core's decisions depend on.
#[derive(Clone, Copy, Debug, PartialEq, Eq)]
pub struct ColorTarget {
    /// Handle of the backing texture.
    pub texture: u32,
    /// Width of the texture's base level, in pixels.
    pub texture_width: u32,
    /// Height of the texture's base level, in pixels.
    pub texture_height: u32,
    /// How many mip levels the texture was allocated with.
    pub texture_mip_count: u32,
    /// The layer (or cube face index), for array and cube textures.
    pub layer: Option<u32>,
    /// The mip level written to; `None` targets the base level.
    pub mip_level: Option<u32>,
}

impl ColorTarget {
    /// A meaningful descriptor: a targeted mip level is small enough that the
    /// scaled size is well defined.
    pub open spec fn wf(self) -> bool {
        self.mip_level is Some ==> self.mip_level->0 < 32
    }

    /// The width of the targeted image.
    pub open spec fn width_spec(self) -> int {
        size_with_mip_spec(self.texture_width, self.mip_level)
    }

    /// The height of the targeted image.
    pub open spec fn height_spec(self) -> int {
        size_with_mip_spec(self.texture_height, self.mip_level)
    }

    /// The width of the targeted image: the texture's base width scaled down
    /// by the targeted mip level.
    pub fn width(&self) -> (r: u32)
        requires
            self.wf(),
        ensures
            r == self.width_spec(),
    {
        size_with_mip(self.texture_width, self.mip_level)
    }

    /// The height of the targeted image.
    pub fn height(&self) -> (r: u32)
        requires
            self.wf(),
        ensures
            r == self.height_spec(),
    {
        size_with_mip(self.texture_height, self.mip_level)
    }

    /// The command that attaches this image to the bound framebuffer.
    pub open spec fn bind_command_spec(self) -> Command {
        Command::AttachColor {
            texture: self.texture,
            layer: self.layer,
            mip_level: if self.mip_level is Some {
                self.mip_level->0
            } else {
                0
            },
        }
    }

    /// Attach this image to the framebuffer currently bound on the device.
    pub fn bind(&self) -> (r: Command)
        ensures
            r == self.bind_command_spec(),
    {
        Command::AttachColor {
            texture: self.texture,
            layer: self.layer,
            mip_level: match self.mip_level {
                Some(m) => m,
                None => 0,
            },
        }
    }

    /// The mip regeneration a write to this target is followed by: none when
    /// the texture has no mip chain or the write targets a fixed level.
    pub open spec fn mip_commands_spec(self) -> Seq<Command> {
        if self.mip_level is None && self.texture_mip_count > 1 {
            seq![Command::GenerateMipMaps { texture: self.texture }]
        } else {
            Seq::empty()
        }
    }

    /// Regenerate the texture's mip chain after a write, where it has one and
    /// the write went to the base level.
    pub fn generate_mip_maps(&self) -> (r: Option<Command>)
        ensures
            match r {
                Some(c) => self.mip_commands_spec() == seq![c],
                None => self.mip_commands_spec() == Seq::<Command>::empty(),
            },
    {
        if self.mip_level.is_none() && self.texture_mip_count > 1 {
            Some(Command::GenerateMipMaps { texture: self.texture })
        } else {
            None
        }
    }
}

} // verus!
