//! Render targets: the screen or a framebuffer backed by color and/or depth
//! attachments, with clears, writes, copies and pixel read-backs.
//!
//! The device executes what these methods return: a clear, a write or a copy
//! is a [`Command`] sequence, and a read-back is a [`ReadPass`] naming the
//! rectangle, the transfer format and the byte count of the data the device
//! hands back (which callers then pass through [`crate::pixels::flip_y`],
//! since the device delivers rows bottom-up).

use vstd::prelude::*;
use vstd::arithmetic::power2::pow2;
use vstd::arithmetic::power2::lemma_pow2_unfold;
use vstd::arithmetic::power2::lemma_pow2_strictly_increases;
use vstd::arithmetic::power2::lemma2_to64;
use crate::clear_state::ClearState;
use crate::clear_state::WriteMask;
use crate::color_target::ColorTarget;
use crate::context;
use crate::context::BindTarget;
use crate::context::Command;
use crate::context::CopyShader;
use crate::context::EffectPass;
use crate::depth_target::DepthTarget;
use crate::error::AttachmentKind;
use crate::error::CoreError;
use crate::pixels::TextureDataType;
use crate::pixels::format_from_data_type;
use crate::pixels::format_spec;
use crate::pixels::transfer_bytes_per_pixel;
use crate::pixels::transfer_bytes_per_pixel_spec;
use crate::pixels::transfer_format;
use crate::pixels::transfer_format_spec;
use crate::scissor_box::ScissorBox;
use crate::scissor_box::Viewport;

verus! {

/// A texture size scaled down to a mip level: halved once per level.
pub open spec fn size_with_mip_spec(size: u32, mip: Option<u32>) -> int {
    match mip {
        Some(m) => size as int / pow2(m as nat) as int,
        None => size as int,
    }
}

/// A texture size scaled down to a mip level: halved once per level.
pub fn size_with_mip(size: u32, mip: Option<u32>) -> (r: u32)
    requires
        mip is Some ==> mip->0 < 32,
    ensures
        r == size_with_mip_spec(size, mip),
{
    match mip {
        Some(m) => {
            let mut d: u32 = 1;
            let mut i: u32 = 0;
            proof {
                lemma2_to64();
            }
            while i < m
                invariant
                    i <= m < 32,
                    d == pow2(i as nat),
                decreases m - i,
            {
                proof {
                    lemma2_to64();
                    if (i as nat) < 31 {
                        lemma_pow2_strictly_increases(i as nat, 31);
                    }
                    lemma_pow2_unfold((i + 1) as nat);
                }
                d = d * 2;
                i += 1;
            }
            proof {
                lemma2_to64();
                if (m as nat) < 31 {
                    lemma_pow2_strictly_increases(m as nat, 31);
                }
            }
            size / d
        },
        None => size,
    }
}

/// One pixel read-back, ready for the device: the commands that bind the
/// source, the rectangle read, the transfer format, and how many bytes of
/// data come back.
#[derive(Clone, Debug, PartialEq, Eq)]
pub struct ReadPass {
    /// Executed before the read: binds the target for drawing and reading.
    pub commands: Vec<Command>,
    /// Left edge of the rectangle read.
    pub x: i32,
    /// Bottom edge of the rectangle read.
    pub y: i32,
    /// Width of the rectangle read, in pixels.
    pub width: u32,
    /// Height of the rectangle read, in pixels.
    pub height: u32,
    /// Pixel transfer format tag.
    pub format: u32,
    /// Scalar type tag of each transferred channel.
    pub data_type: u32,
    /// Size of the destination buffer, in bytes.
    pub byte_count: usize,
}

/// Renders to the screen or into textures: the screen target (no framebuffer
/// of its own), or a framebuffer backed by a color and/or depth attachment.
///
/// A render target adds no storage of its own — pixel data lives in the
/// attached textures — so one can be constructed whenever it is needed.
pub struct RenderTarget {
    /// The framebuffer handle; `None` is the platform's default target, the
    /// screen.
    pub id: Option<u32>,
    /// The color attachment, if any.
    pub color: Option<ColorTarget>,
    /// The depth attachment, if any.
    pub depth: Option<DepthTarget>,
    /// Width in pixels, cached from the attachments (or given, for the
    /// screen).
    pub width: u32,
    /// Height in pixels, cached from the attachments (or given, for the
    /// screen).
    pub height: u32,
}

impl RenderTarget {
    /// A validly constructed target: the screen variant carries no
    /// attachments, and the cached size agrees with every attachment present.
    pub open spec fn wf(self) -> bool {
        &&& self.id is None ==> (self.color is None && self.depth is None)
        &&& self.color is Some ==> (self.color->0.wf() && self.width == self.color->0.width_spec()
            && self.height == self.color->0.height_spec())
        &&& self.depth is Some ==> (self.depth->0.wf() && self.width == self.depth->0.width_spec()
            && self.height == self.depth->0.height_spec())
    }

    /// The screen render target: the platform's default framebuffer, of the
    /// given size. Allocates nothing on the device.
    pub fn screen(width: u32, height: u32) -> (r: RenderTarget)
        ensures
            r == (RenderTarget { id: None, color: None, depth: None, width, height }),
            r.wf(),
    {
        RenderTarget { id: None, color: None, depth: None, width, height }
    }

    /// A render target that draws into the given color and depth attachments,
    /// backed by a framebuffer the embedder allocated on the device. The two
    /// attachments must be the same size, and the target takes that size.
    pub fn new(color: ColorTarget, depth: DepthTarget, framebuffer: u32) -> (r: RenderTarget)
        requires
            color.wf(),
            depth.wf(),
            color.width_spec() == depth.width_spec(),
            color.height_spec() == depth.height_spec(),
        ensures
            r.id == Some(framebuffer),
            r.color == Some(color),
            r.depth == Some(depth),
            r.width == color.width_spec() && r.width == depth.width_spec(),
            r.height == color.height_spec() && r.height == depth.height_spec(),
            r.wf(),
    {
        let width = color.width();
        let height = color.height();
        RenderTarget { id: Some(framebuffer), color: Some(color), depth: Some(depth), width, height }
    }

    /// As [`RenderTarget::new`], but rejects a mismatched pair of
    /// attachments instead of assuming it away: the target is built exactly
    /// when the two attachments agree in width and height.
    pub fn new_checked(color: ColorTarget, depth: DepthTarget, framebuffer: u32) -> (r: Option<
        RenderTarget,
    >)
        requires
            color.wf(),
            depth.wf(),
        ensures
            r is Some <==> (color.width_spec() == depth.width_spec() && color.height_spec()
                == depth.height_spec()),
            r is Some ==> (r->0.id == Some(framebuffer) && r->0.color == Some(color) && r->0.depth
                == Some(depth) && r->0.width == color.width_spec() && r->0.height
                == color.height_spec() && r->0.wf()),
    {
        if color.width() == depth.width() && color.height() == depth.height() {
            Some(Self::new(color, depth, framebuffer))
        } else {
            None
        }
    }

    /// A render target with only a color attachment.
    pub fn new_color(color: ColorTarget, framebuffer: u32) -> (r: RenderTarget)
        requires
            color.wf(),
        ensures
            r.id == Some(framebuffer),
            r.color == Some(color),
            r.depth is None,
            r.width == color.width_spec(),
            r.height == color.height_spec(),
            r.wf(),
    {
        let width = color.width();
        let height = color.height();
        RenderTarget { id: Some(framebuffer), color: Some(color), depth: None, width, height }
    }

    /// A render target with only a depth attachment.
    pub fn new_depth(depth: DepthTarget, framebuffer: u32) -> (r: RenderTarget)
        requires
            depth.wf(),
        ensures
            r.id == Some(framebuffer),
            r.color is None,
            r.depth == Some(depth),
            r.width == depth.width_spec(),
            r.height == depth.height_spec(),
            r.wf(),
    {
        let width = depth.width();
        let height = depth.height();
        RenderTarget { id: Some(framebuffer), color: None, depth: Some(depth), width, height }
    }

    /// Wraps a framebuffer the embedder manages itself; the target knows its
    /// size but no attachments.
    pub fn from_framebuffer(width: u32, height: u32, framebuffer: u32) -> (r: RenderTarget)
        ensures
            r == (RenderTarget { id: Some(framebuffer), color: None, depth: None, width, height }),
            r.wf(),
    {
        RenderTarget { id: Some(framebuffer), color: None, depth: None, width, height }
    }

    /// Gives the framebuffer handle back to the embedder, who then owns it.
    pub fn into_framebuffer(self) -> (r: Option<u32>)
        ensures
            r == self.id,
    {
        self.id
    }

    /// The width of the target, in pixels.
    pub fn width(&self) -> (r: u32)
        ensures
            r == self.width,
    {
        self.width
    }

    /// The height of the target, in pixels.
    pub fn height(&self) -> (r: u32)
        ensures
            r == self.height,
    {
        self.height
    }

    /// The scissor box that encloses the whole target.
    pub open spec fn scissor_box_spec(self) -> ScissorBox {
        ScissorBox { x: 0, y: 0, width: self.width, height: self.height }
    }

    /// The scissor box that encloses the whole target.
    pub fn scissor_box(&self) -> (r: ScissorBox)
        ensures
            r == self.scissor_box_spec(),
    {
        ScissorBox::new_at_origo(self.width, self.height)
    }

    /// The commands that bind this target to a framebuffer slot: bind the
    /// framebuffer (or the default one), then attach each present attachment.
    pub open spec fn bind_commands_spec(self, target: BindTarget) -> Seq<Command> {
        seq![Command::BindFramebuffer { target, framebuffer: self.id }] + (match self.color {
            Some(c) => seq![c.bind_command_spec()],
            None => Seq::empty(),
        }) + (match self.depth {
            Some(d) => seq![d.bind_command_spec()],
            None => Seq::empty(),
        })
    }

    /// Bind this target to the given framebuffer slot.
    fn bind(&self, target: BindTarget) -> (r: Vec<Command>)
        ensures
            r@ == self.bind_commands_spec(target),
    {
        let mut r: Vec<Command> = Vec::new();
        r.push(Command::BindFramebuffer { target, framebuffer: self.id });
        if let Some(ref color) = self.color {
            r.push(color.bind());
        }
        if let Some(ref depth) = self.depth {
            r.push(depth.bind());
        }
        proof {
            assert(r@ =~= self.bind_commands_spec(target));
        }
        r
    }

    /// What a clear of this target does: scissor, bind for drawing, clear.
    pub open spec fn clear_commands_spec(self, scissor_box: ScissorBox, clear_state: ClearState) -> Seq<
        Command,
    > {
        seq![Command::SetScissor(scissor_box)] + self.bind_commands_spec(BindTarget::Draw)
            + seq![Command::Clear(clear_state)]
    }

    /// Clear the whole target as the clear state says.
    pub fn clear(&self, clear_state: ClearState) -> (r: Vec<Command>)
        ensures
            r@ == self.clear_commands_spec(self.scissor_box_spec(), clear_state),
    {
        self.clear_partially(self.scissor_box(), clear_state)
    }

    /// Clear the part of the target inside the scissor box.
    pub fn clear_partially(&self, scissor_box: ScissorBox, clear_state: ClearState) -> (r: Vec<
        Command,
    >)
        ensures
            r@ == self.clear_commands_spec(scissor_box, clear_state),
    {
        let mut r: Vec<Command> = Vec::new();
        r.push(Command::SetScissor(scissor_box));
        let mut binds = self.bind(BindTarget::Draw);
        r.append(&mut binds);
        r.push(Command::Clear(clear_state));
        proof {
            assert(r@ =~= self.clear_commands_spec(scissor_box, clear_state));
        }
        r
    }

    /// What precedes the caller's rendering in a write: scissor, then bind
    /// for drawing.
    pub open spec fn write_prefix_spec(self, scissor_box: ScissorBox) -> Seq<Command> {
        seq![Command::SetScissor(scissor_box)] + self.bind_commands_spec(BindTarget::Draw)
    }

    /// What follows the caller's rendering in a write: regeneration of the
    /// color attachment's mip chain, where it has one.
    pub open spec fn write_suffix_spec(self) -> Seq<Command> {
        match self.color {
            Some(c) => c.mip_commands_spec(),
            None => Seq::empty(),
        }
    }

    /// Write to the whole target: runs the caller-supplied unit of work
    /// between the binding prefix and the mip-regeneration suffix.
    pub fn write<F: FnOnce() -> Vec<Command>>(&self, render: F) -> (r: Vec<Command>)
        requires
            call_requires(render, ()),
        ensures
            exists|rendered: Vec<Command>|
                #[trigger] call_ensures(render, (), rendered) && r@ == self.write_prefix_spec(
                    self.scissor_box_spec(),
                ) + rendered@ + self.write_suffix_spec(),
    {
        self.write_partially(self.scissor_box(), render)
    }

    /// Write to the part of the target inside the scissor box: the target is
    /// bound and the scissor applied before the caller's work runs, and the
    /// mip chain of the color attachment is regenerated only afterwards, and
    /// only if there is one.
    pub fn write_partially<F: FnOnce() -> Vec<Command>>(&self, scissor_box: ScissorBox, render: F) -> (r:
        Vec<Command>)
        requires
            call_requires(render, ()),
        ensures
            exists|rendered: Vec<Command>|
                #[trigger] call_ensures(render, (), rendered) && r@ == self.write_prefix_spec(
                    scissor_box,
                ) + rendered@ + self.write_suffix_spec(),
    {
        let mut r: Vec<Command> = Vec::new();
        r.push(Command::SetScissor(scissor_box));
        let mut binds = self.bind(BindTarget::Draw);
        r.append(&mut binds);
        let mut rendered = render();
        let ghost rendered_snapshot = rendered;
        r.append(&mut rendered);
        if let Some(ref color) = self.color {
            match color.generate_mip_maps() {
                Some(c) => r.push(c),
                None => {},
            }
        }
        proof {
            assert(call_ensures(render, (), rendered_snapshot) && r@ == self.write_prefix_spec(
                scissor_box,
            ) + rendered_snapshot@ + self.write_suffix_spec()) by {
                assert(r@ =~= self.write_prefix_spec(scissor_box) + rendered_snapshot@
                    + self.write_suffix_spec());
            }
        }
        r
    }

    /// Whether a read-back of the given kind of data describes this target
    /// and rectangle: the right binding commands, the rectangle itself, the
    /// (possibly widened) transfer format, and the buffer size in bytes.
    pub open spec fn is_color_read(
        self,
        scissor_box: ScissorBox,
        data_type: TextureDataType,
        p: ReadPass,
    ) -> bool {
        &&& p.commands@ == self.bind_commands_spec(BindTarget::Draw) + self.bind_commands_spec(
            BindTarget::Read,
        )
        &&& p.x == scissor_box.x
        &&& p.y == scissor_box.y
        &&& p.width == scissor_box.width
        &&& p.height == scissor_box.height
        &&& p.format == transfer_format_spec(data_type)
        &&& p.data_type == data_type.data_type
        &&& p.byte_count == scissor_box.width * scissor_box.height * transfer_bytes_per_pixel_spec(
            data_type,
        )
    }

    /// Read the colors of the whole target; fails exactly where the target
    /// has a framebuffer of its own but no color attachment.
    pub fn read_color(&self, data_type: TextureDataType) -> (r: Result<ReadPass, CoreError>)
        requires
            data_type.wf(),
            self.width * self.height * 16 <= usize::MAX,
        ensures
            r is Err <==> (self.id is Some && self.color is None),
            r is Err ==> r == Err::<ReadPass, CoreError>(
                CoreError::MissingAttachment(AttachmentKind::Color),
            ),
            r is Ok ==> self.is_color_read(self.scissor_box_spec(), data_type, r->Ok_0),
    {
        self.read_color_partially(self.scissor_box(), data_type)
    }

    /// Read the colors of the pixels inside the scissor box; fails exactly
    /// where the target has a framebuffer of its own but no color attachment.
    pub fn read_color_partially(&self, scissor_box: ScissorBox, data_type: TextureDataType) -> (r:
        Result<ReadPass, CoreError>)
        requires
            data_type.wf(),
            scissor_box.width * scissor_box.height * 16 <= usize::MAX,
        ensures
            r is Err <==> (self.id is Some && self.color is None),
            r is Err ==> r == Err::<ReadPass, CoreError>(
                CoreError::MissingAttachment(AttachmentKind::Color),
            ),
            r is Ok ==> self.is_color_read(scissor_box, data_type, r->Ok_0),
    {
        if self.id.is_some() && self.color.is_none() {
            return Err(CoreError::MissingAttachment(AttachmentKind::Color));
        }
        let mut commands = self.bind(BindTarget::Draw);
        let mut read_binds = self.bind(BindTarget::Read);
        commands.append(&mut read_binds);
        let bytes_per_pixel = transfer_bytes_per_pixel(data_type);
        proof {
            assert(scissor_box.width * scissor_box.height * bytes_per_pixel <= scissor_box.width
                * scissor_box.height * 16 && scissor_box.width * scissor_box.height
                <= scissor_box.width * scissor_box.height * 16) by (nonlinear_arith)
                requires
                    1 <= bytes_per_pixel <= 16,
            ;
        }
        let byte_count = scissor_box.width as usize * scissor_box.height as usize
            * bytes_per_pixel as usize;
        Ok(
            ReadPass {
                commands,
                x: scissor_box.x,
                y: scissor_box.y,
                width: scissor_box.width,
                height: scissor_box.height,
                format: transfer_format(data_type),
                data_type: data_type.data_type,
                byte_count,
            },
        )
    }

    /// Whether a depth read-back describes this target and rectangle: depth
    /// comes back as one four-byte sample per pixel, and is not flipped.
    pub open spec fn is_depth_read(self, scissor_box: ScissorBox, p: ReadPass) -> bool {
        &&& p.commands@ == self.bind_commands_spec(BindTarget::Draw) + self.bind_commands_spec(
            BindTarget::Read,
        )
        &&& p.x == scissor_box.x
        &&& p.y == scissor_box.y
        &&& p.width == scissor_box.width
        &&& p.height == scissor_box.height
        &&& p.format == context::DEPTH_COMPONENT
        &&& p.data_type == context::FLOAT
        &&& p.byte_count == scissor_box.width * scissor_box.height * 4
    }

    /// Read the depth values of the whole target; fails exactly where the
    /// target has a framebuffer of its own but no depth attachment.
    pub fn read_depth(&self) -> (r: Result<ReadPass, CoreError>)
        requires
            self.width * self.height * 4 <= usize::MAX,
        ensures
            r is Err <==> (self.id is Some && self.depth is None),
            r is Err ==> r == Err::<ReadPass, CoreError>(
                CoreError::MissingAttachment(AttachmentKind::Depth),
            ),
            r is Ok ==> self.is_depth_read(self.scissor_box_spec(), r->Ok_0),
    {
        self.read_depth_partially(self.scissor_box())
    }

    /// Read the depth values inside the scissor box; fails exactly where the
    /// target has a framebuffer of its own but no depth attachment.
    pub fn read_depth_partially(&self, scissor_box: ScissorBox) -> (r: Result<ReadPass, CoreError>)
        requires
            scissor_box.width * scissor_box.height * 4 <= usize::MAX,
        ensures
            r is Err <==> (self.id is Some && self.depth is None),
            r is Err ==> r == Err::<ReadPass, CoreError>(
                CoreError::MissingAttachment(AttachmentKind::Depth),
            ),
            r is Ok ==> self.is_depth_read(scissor_box, r->Ok_0),
    {
        if self.id.is_some() && self.depth.is_none() {
            return Err(CoreError::MissingAttachment(AttachmentKind::Depth));
        }
        let mut commands = self.bind(BindTarget::Draw);
        let mut read_binds = self.bind(BindTarget::Read);
        commands.append(&mut read_binds);
        proof {
            assert(scissor_box.width * scissor_box.height <= scissor_box.width * scissor_box.height
                * 4) by (nonlinear_arith);
        }
        let byte_count = scissor_box.width as usize * scissor_box.height as usize * 4;
        Ok(
            ReadPass {
                commands,
                x: scissor_box.x,
                y: scissor_box.y,
                width: scissor_box.width,
                height: scissor_box.height,
                format: context::DEPTH_COMPONENT,
                data_type: context::FLOAT,
                byte_count,
            },
        )
    }

    /// Copy the given color and/or depth texture into the scissor box of this
    /// target, through a full-screen copy pass wrapped in a write.
    pub fn copy_from(
        &self,
        color_texture: Option<u32>,
        depth_texture: Option<u32>,
        scissor_box: ScissorBox,
        write_mask: WriteMask,
    ) -> (r: Vec<Command>)
        ensures
            r@ == self.write_prefix_spec(scissor_box) + effect_commands_spec(
                copy_from_spec(
                    color_texture,
                    depth_texture,
                    (Viewport {
                        x: scissor_box.x,
                        y: scissor_box.y,
                        width: scissor_box.width,
                        height: scissor_box.height,
                    }),
                    write_mask,
                ),
            ) + self.write_suffix_spec(),
    {
        let viewport = Viewport::from(scissor_box);
        let pass = copy_from(color_texture, depth_texture, viewport, write_mask);
        let r = self.write_partially(
            scissor_box,
            (move || -> (cs: Vec<Command>)
                ensures
                    cs@ == effect_commands_spec(pass),
                {
                    effect_commands(pass)
                }),
        );
        r
    }

    /// Copy the given layers of color and/or depth array textures into the
    /// scissor box of this target, through a full-screen copy pass wrapped in
    /// a write.
    pub fn copy_from_array(
        &self,
        color_texture: Option<(u32, u32)>,
        depth_texture: Option<(u32, u32)>,
        scissor_box: ScissorBox,
        write_mask: WriteMask,
    ) -> (r: Vec<Command>)
        ensures
            r@ == self.write_prefix_spec(scissor_box) + effect_commands_spec(
                copy_from_array_spec(
                    color_texture,
                    depth_texture,
                    (Viewport {
                        x: scissor_box.x,
                        y: scissor_box.y,
                        width: scissor_box.width,
                        height: scissor_box.height,
                    }),
                    write_mask,
                ),
            ) + self.write_suffix_spec(),
    {
        let viewport = Viewport::from(scissor_box);
        let pass = copy_from_array(color_texture, depth_texture, viewport, write_mask);
        let r = self.write_partially(
            scissor_box,
            (move || -> (cs: Vec<Command>)
                ensures
                    cs@ == effect_commands_spec(pass),
                {
                    effect_commands(pass)
                }),
        );
        r
    }
}

/// Two color read-backs of the same target over its full scissor box — the
/// whole-target read and the partial read given the full box — describe the
/// identical transfer, so the device returns byte-identical data to both.
pub proof fn lemma_full_box_reads_agree(
    target: RenderTarget,
    data_type: TextureDataType,
    full: ReadPass,
    partial: ReadPass,
)
    requires
        target.is_color_read(target.scissor_box_spec(), data_type, full),
        target.is_color_read(target.scissor_box_spec(), data_type, partial),
    ensures
        full.commands@ == partial.commands@,
        full.x == partial.x && full.y == partial.y,
        full.width == partial.width && full.height == partial.height,
        full.format == partial.format,
        full.data_type == partial.data_type,
        full.byte_count == partial.byte_count,
{
}

/// The commands a copy pass contributes to a write: one effect application,
/// or none where there is nothing to copy.
pub open spec fn effect_commands_spec(pass: Option<EffectPass>) -> Seq<Command> {
    match pass {
        Some(p) => seq![Command::ApplyEffect(p)],
        None => Seq::empty(),
    }
}

/// The commands a copy pass contributes to a write.
pub fn effect_commands(pass: Option<EffectPass>) -> (r: Vec<Command>)
    ensures
        r@ == effect_commands_spec(pass),
{
    let mut r: Vec<Command> = Vec::new();
    match pass {
        Some(p) => {
            r.push(Command::ApplyEffect(p));
        },
        None => {},
    }
    proof {
        assert(r@ =~= effect_commands_spec(pass));
    }
    r
}

/// The copy pass that blits the given textures into the viewport: the shader
/// variant follows from which sources are present, and a channel without a
/// source is masked off the write mask. No sources, no pass.
pub open spec fn copy_from_spec(
    color_texture: Option<u32>,
    depth_texture: Option<u32>,
    viewport: Viewport,
    write_mask: WriteMask,
) -> Option<EffectPass> {
    if color_texture is None && depth_texture is None {
        None
    } else {
        Some(
            EffectPass {
                shader: if color_texture is Some && depth_texture is Some {
                    CopyShader::ColorAndDepth
                } else if color_texture is Some {
                    CopyShader::ColorOnly
                } else {
                    CopyShader::DepthOnly
                },
                array: false,
                color_texture,
                color_layer: None,
                depth_texture,
                depth_layer: None,
                write_mask: WriteMask {
                    red: color_texture is Some && write_mask.red,
                    green: color_texture is Some && write_mask.green,
                    blue: color_texture is Some && write_mask.blue,
                    alpha: color_texture is Some && write_mask.alpha,
                    depth: depth_texture is Some && write_mask.depth,
                },
                viewport,
            },
        )
    }
}

/// Build the copy pass for plain 2D textures; `None` when there is nothing
/// to copy.
pub fn copy_from(
    color_texture: Option<u32>,
    depth_texture: Option<u32>,
    viewport: Viewport,
    write_mask: WriteMask,
) -> (r: Option<EffectPass>)
    ensures
        r == copy_from_spec(color_texture, depth_texture, viewport, write_mask),
{
    if color_texture.is_none() && depth_texture.is_none() {
        None
    } else {
        let shader = if color_texture.is_some() && depth_texture.is_some() {
            CopyShader::ColorAndDepth
        } else if color_texture.is_some() {
            CopyShader::ColorOnly
        } else {
            CopyShader::DepthOnly
        };
        Some(
            EffectPass {
                shader,
                array: false,
                color_texture,
                color_layer: None,
                depth_texture,
                depth_layer: None,
                write_mask: WriteMask {
                    red: color_texture.is_some() && write_mask.red,
                    green: color_texture.is_some() && write_mask.green,
                    blue: color_texture.is_some() && write_mask.blue,
                    alpha: color_texture.is_some() && write_mask.alpha,
                    depth: depth_texture.is_some() && write_mask.depth,
                },
                viewport,
            },
        )
    }
}

/// The copy pass that blits the given layers of array textures into the
/// viewport; as [`copy_from_spec`], with the sources given as texture handle
/// and layer.
pub open spec fn copy_from_array_spec(
    color_texture: Option<(u32, u32)>,
    depth_texture: Option<(u32, u32)>,
    viewport: Viewport,
    write_mask: WriteMask,
) -> Option<EffectPass> {
    if color_texture is None && depth_texture is None {
        None
    } else {
        Some(
            EffectPass {
                shader: if color_texture is Some && depth_texture is Some {
                    CopyShader::ColorAndDepth
                } else if color_texture is Some {
                    CopyShader::ColorOnly
                } else {
                    CopyShader::DepthOnly
                },
                array: true,
                color_texture: match color_texture {
                    Some(p) => Some(p.0),
                    None => None,
                },
                color_layer: match color_texture {
                    Some(p) => Some(p.1),
                    None => None,
                },
                depth_texture: match depth_texture {
                    Some(p) => Some(p.0),
                    None => None,
                },
                depth_layer: match depth_texture {
                    Some(p) => Some(p.1),
                    None => None,
                },
                write_mask: WriteMask {
                    red: color_texture is Some && write_mask.red,
                    green: color_texture is Some && write_mask.green,
                    blue: color_texture is Some && write_mask.blue,
                    alpha: color_texture is Some && write_mask.alpha,
                    depth: depth_texture is Some && write_mask.depth,
                },
                viewport,
            },
        )
    }
}

/// Build the copy pass for layers of array textures; `None` when there is
/// nothing to copy.
pub fn copy_from_array(
    color_texture: Option<(u32, u32)>,
    depth_texture: Option<(u32, u32)>,
    viewport: Viewport,
    write_mask: WriteMask,
) -> (r: Option<EffectPass>)
    ensures
        r == copy_from_array_spec(color_texture, depth_texture, viewport, write_mask),
{
    if color_texture.is_none() && depth_texture.is_none() {
        None
    } else {
        let shader = if color_texture.is_some() && depth_texture.is_some() {
            CopyShader::ColorAndDepth
        } else if color_texture.is_some() {
            CopyShader::ColorOnly
        } else {
            CopyShader::DepthOnly
        };
        let (color_handle, color_layer) = match color_texture {
            Some((t, l)) => (Some(t), Some(l)),
            None => (None, None),
        };
        let (depth_handle, depth_layer) = match depth_texture {
            Some((t, l)) => (Some(t), Some(l)),
            None => (None, None),
        };
        Some(
            EffectPass {
                shader,
                array: true,
                color_texture: color_handle,
                color_layer,
                depth_texture: depth_handle,
                depth_layer,
                write_mask: WriteMask {
                    red: color_texture.is_some() && write_mask.red,
                    green: color_texture.is_some() && write_mask.green,
                    blue: color_texture.is_some() && write_mask.blue,
                    alpha: color_texture.is_some() && write_mask.alpha,
                    depth: depth_texture.is_some() && write_mask.depth,
                },
                viewport,
            },
        )
    }
}

} // verus!
