//! The vocabulary this core uses to talk to the graphics device.
//!
//! The device is an external collaborator. Every operation the render-target
//! layer wants performed is described by a [`Command`]; an embedder executes a
//! command sequence against its own graphics context, in order. Pixel
//! read-backs are described separately (see the render-target module), since
//! they return data.

use vstd::prelude::*;
use crate::clear_state::ClearState;
use crate::clear_state::WriteMask;
use crate::scissor_box::ScissorBox;
use crate::scissor_box::Viewport;

verus! {

/// Pixel transfer format: one channel.
pub const RED: u32 = 0x1903;

/// Pixel transfer format: two channels.
pub const RG: u32 = 0x8227;

/// Pixel transfer format: three channels.
pub const RGB: u32 = 0x1907;

/// Pixel transfer format: four channels.
pub const RGBA: u32 = 0x1908;

/// Pixel transfer format: the depth buffer.
pub const DEPTH_COMPONENT: u32 = 0x1902;

/// Scalar type of a transferred channel: 32-bit float.
pub const FLOAT: u32 = 0x1406;

/// Which framebuffer slot a bind affects.
#[derive(Clone, Copy, Debug, PartialEq, Eq, Structural)]
pub enum BindTarget {
    /// The framebuffer that draw calls and clears affect.
    Draw,
    /// The framebuffer that pixel read-backs come from.
    Read,
}

/// The full-screen copy shader a blit pass runs, chosen by which source
/// textures are present.
#[derive(Clone, Copy, Debug, PartialEq, Eq, Structural)]
pub enum CopyShader {
    /// Samples a color source and a depth source.
    ColorAndDepth,
    /// Samples only a color source.
    ColorOnly,
    /// Samples only a depth source.
    DepthOnly,
}

/// One full-screen copy pass: a blit of a color and/or depth texture into the
/// currently bound render target, respecting a per-channel write mask and run
/// with the depth test always passing.
#[derive(Clone, Copy, Debug, PartialEq, Eq)]
pub struct EffectPass {
    /// Which copy shader variant the pass runs.
    pub shader: CopyShader,
    /// Whether the sources are layers of array textures.
    pub array: bool,
    /// Handle of the source color texture, if any.
    pub color_texture: Option<u32>,
    /// Source layer within the color array texture.
    pub color_layer: Option<u32>,
    /// Handle of the source depth texture, if any.
    pub depth_texture: Option<u32>,
    /// Source layer within the depth array texture.
    pub depth_layer: Option<u32>,
    /// The channels the pass may write; a channel without a source is masked
    /// off.
    pub write_mask: WriteMask,
    /// The rectangle the pass renders into.
    pub viewport: Viewport,
}

/// One operation on the graphics device, to be executed by the embedder.
#[derive(Clone, Copy, Debug, PartialEq, Eq)]
pub enum Command {
    /// Restrict subsequent operations to the given rectangle.
    SetScissor(ScissorBox),
    /// Bind a framebuffer (`None` is the platform's default, the screen) to
    /// the given slot.
    BindFramebuffer { target: BindTarget, framebuffer: Option<u32> },
    /// Attach an image of a color texture to the bound framebuffer.
    AttachColor { texture: u32, layer: Option<u32>, mip_level: u32 },
    /// Attach an image of a depth texture to the bound framebuffer.
    AttachDepth { texture: u32, layer: Option<u32> },
    /// Clear the channels the state names to the values it carries.
    Clear(ClearState),
    /// Regenerate the mip chain of a texture from its base level.
    GenerateMipMaps { texture: u32 },
    /// Run one full-screen copy pass.
    ApplyEffect(EffectPass),
}

} // verus!
