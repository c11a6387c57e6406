use render_core::clear_state::ClearState;
use render_core::clear_state::WriteMask;
use render_core::color_target::ColorTarget;
use render_core::context::BindTarget;
use render_core::context::Command;
use render_core::context::CopyShader;
use render_core::context::DEPTH_COMPONENT;
use render_core::context::FLOAT;
use render_core::context::RED;
use render_core::context::RG;
use render_core::context::RGB;
use render_core::context::RGBA;
use render_core::depth_target::DepthTarget;
use render_core::error::AttachmentKind;
use render_core::error::CoreError;
use render_core::pixels::TextureDataType;
use render_core::pixels::flip_y;
use render_core::pixels::format_from_data_type;
use render_core::pixels::transfer_bytes_per_pixel;
use render_core::render_target::RenderTarget;
use render_core::render_target::copy_from;
use render_core::render_target::copy_from_array;
use render_core::render_target::size_with_mip;
use render_core::scissor_box::ScissorBox;
use render_core::scissor_box::Viewport;

fn color_attachment(width: u32, height: u32) -> ColorTarget {
    ColorTarget {
        texture: 11,
        texture_width: width,
        texture_height: height,
        texture_mip_count: 1,
        layer: None,
        mip_level: None,
    }
}

fn depth_attachment(width: u32, height: u32) -> DepthTarget {
    DepthTarget {
        texture: 12,
        texture_width: width,
        texture_height: height,
        layer: None,
        mip_level: None,
    }
}

fn rgba_bytes() -> TextureDataType {
    TextureDataType { channels: 4, bytes_per_channel: 1, data_type: 0x1401 }
}

#[test]
fn new_takes_the_attachment_size() {
    let rt = RenderTarget::new(color_attachment(64, 32), depth_attachment(64, 32), 7);
    assert_eq!(rt.width(), 64);
    assert_eq!(rt.height(), 32);
    assert_eq!(rt.width(), rt.color.unwrap().width());
    assert_eq!(rt.width(), rt.depth.unwrap().width());
    assert_eq!(rt.height(), rt.color.unwrap().height());
    assert_eq!(rt.height(), rt.depth.unwrap().height());
}

#[test]
fn screen_has_no_framebuffer_and_given_size() {
    let rt = RenderTarget::screen(800, 600);
    assert_eq!(rt.width(), 800);
    assert_eq!(rt.height(), 600);
    assert_eq!(rt.id, None);
    assert_eq!(rt.scissor_box(), ScissorBox { x: 0, y: 0, width: 800, height: 600 });
}

#[test]
fn read_color_from_depth_only_target_fails() {
    let rt = RenderTarget::new_depth(depth_attachment(16, 16), 3);
    let r = rt.read_color(rgba_bytes());
    assert_eq!(r.unwrap_err(), CoreError::MissingAttachment(AttachmentKind::Color));
}

#[test]
fn read_color_from_framebuffer_derived_target_fails() {
    let rt = RenderTarget::from_framebuffer(16, 16, 9);
    let r = rt.read_color(rgba_bytes());
    assert_eq!(r.unwrap_err(), CoreError::MissingAttachment(AttachmentKind::Color));
    let d = rt.read_depth();
    assert_eq!(d.unwrap_err(), CoreError::MissingAttachment(AttachmentKind::Depth));
}

#[test]
fn read_depth_from_color_only_target_fails() {
    let rt = RenderTarget::new_color(color_attachment(16, 16), 3);
    let r = rt.read_depth();
    assert_eq!(r.unwrap_err(), CoreError::MissingAttachment(AttachmentKind::Depth));
}

#[test]
fn screen_reads_are_allowed() {
    let rt = RenderTarget::screen(8, 8);
    assert!(rt.read_color(rgba_bytes()).is_ok());
    assert!(rt.read_depth().is_ok());
}

#[test]
fn full_box_partial_read_equals_whole_read() {
    let rt = RenderTarget::new(color_attachment(32, 16), depth_attachment(32, 16), 4);
    let whole = rt.read_color(rgba_bytes()).unwrap();
    let partial = rt.read_color_partially(rt.scissor_box(), rgba_bytes()).unwrap();
    assert_eq!(whole, partial);
    let whole_d = rt.read_depth().unwrap();
    let partial_d = rt.read_depth_partially(rt.scissor_box()).unwrap();
    assert_eq!(whole_d, partial_d);
}

#[test]
fn read_pass_describes_the_transfer() {
    let rt = RenderTarget::new(color_attachment(32, 16), depth_attachment(32, 16), 4);
    let scissor = ScissorBox { x: 2, y: 3, width: 5, height: 7 };
    let pass = rt.read_color_partially(scissor, rgba_bytes()).unwrap();
    assert_eq!(pass.x, 2);
    assert_eq!(pass.y, 3);
    assert_eq!(pass.width, 5);
    assert_eq!(pass.height, 7);
    assert_eq!(pass.format, RGBA);
    assert_eq!(pass.data_type, 0x1401);
    assert_eq!(pass.byte_count, 5 * 7 * 4);
    assert_eq!(
        pass.commands,
        vec![
            Command::BindFramebuffer { target: BindTarget::Draw, framebuffer: Some(4) },
            Command::AttachColor { texture: 11, layer: None, mip_level: 0 },
            Command::AttachDepth { texture: 12, layer: None },
            Command::BindFramebuffer { target: BindTarget::Read, framebuffer: Some(4) },
            Command::AttachColor { texture: 11, layer: None, mip_level: 0 },
            Command::AttachDepth { texture: 12, layer: None },
        ]
    );
}

#[test]
fn read_depth_pass_is_four_byte_floats() {
    let rt = RenderTarget::new(color_attachment(8, 8), depth_attachment(8, 8), 4);
    let pass = rt.read_depth().unwrap();
    assert_eq!(pass.format, DEPTH_COMPONENT);
    assert_eq!(pass.data_type, FLOAT);
    assert_eq!(pass.byte_count, 8 * 8 * 4);
}

#[test]
fn flip_twice_restores_the_buffer() {
    let original: Vec<u8> = (0u8..15).collect();
    let mut pixels = original.clone();
    flip_y(&mut pixels, 3, 5);
    assert_ne!(pixels, original);
    flip_y(&mut pixels, 3, 5);
    assert_eq!(pixels, original);

    let original: Vec<u32> = (0u32..8).collect();
    let mut pixels = original.clone();
    flip_y(&mut pixels, 2, 4);
    flip_y(&mut pixels, 2, 4);
    assert_eq!(pixels, original);
}

#[test]
fn flip_reverses_rows_and_keeps_the_middle_row() {
    let mut pixels = vec![1u8, 2, 3, 4, 5, 6];
    flip_y(&mut pixels, 2, 3);
    assert_eq!(pixels, vec![5, 6, 3, 4, 1, 2]);
}

#[test]
fn flip_of_one_row_or_nothing_is_identity() {
    let mut one_row = vec![9u8, 8, 7];
    flip_y(&mut one_row, 3, 1);
    assert_eq!(one_row, vec![9, 8, 7]);
    let mut empty: Vec<u8> = Vec::new();
    flip_y(&mut empty, 0, 5);
    assert_eq!(empty, Vec::<u8>::new());
}

#[test]
fn flip_leaves_anything_beyond_the_rows_alone() {
    let mut pixels = vec![1u8, 2, 3, 4, 90, 91];
    flip_y(&mut pixels, 2, 2);
    assert_eq!(pixels, vec![3, 4, 1, 2, 90, 91]);
}

#[test]
fn checked_construction_rejects_mismatched_attachments() {
    assert!(RenderTarget::new_checked(color_attachment(64, 32), depth_attachment(64, 16), 7)
        .is_none());
    assert!(RenderTarget::new_checked(color_attachment(64, 32), depth_attachment(32, 32), 7)
        .is_none());
    let rt = RenderTarget::new_checked(color_attachment(64, 32), depth_attachment(64, 32), 7)
        .unwrap();
    assert_eq!(rt.width(), 64);
    assert_eq!(rt.height(), 32);
    assert_eq!(rt.id, Some(7));
}

#[test]
fn clear_commands_bind_then_clear() {
    let state = ClearState::default();
    let rt = RenderTarget::new(color_attachment(8, 8), depth_attachment(8, 8), 2);
    let scissor = ScissorBox { x: 1, y: 1, width: 4, height: 4 };
    assert_eq!(
        rt.clear_partially(scissor, state),
        vec![
            Command::SetScissor(scissor),
            Command::BindFramebuffer { target: BindTarget::Draw, framebuffer: Some(2) },
            Command::AttachColor { texture: 11, layer: None, mip_level: 0 },
            Command::AttachDepth { texture: 12, layer: None },
            Command::Clear(state),
        ]
    );
    let screen = RenderTarget::screen(8, 8);
    assert_eq!(
        screen.clear(state),
        vec![
            Command::SetScissor(ScissorBox { x: 0, y: 0, width: 8, height: 8 }),
            Command::BindFramebuffer { target: BindTarget::Draw, framebuffer: None },
            Command::Clear(state),
        ]
    );
}

#[test]
fn write_wraps_the_rendering_between_bind_and_mip_regeneration() {
    let mut color = color_attachment(8, 8);
    color.texture_mip_count = 4;
    let rt = RenderTarget::new_color(color, 2);
    let state = ClearState::none();
    let commands = rt.write(|| vec![Command::Clear(state)]);
    assert_eq!(
        commands,
        vec![
            Command::SetScissor(ScissorBox { x: 0, y: 0, width: 8, height: 8 }),
            Command::BindFramebuffer { target: BindTarget::Draw, framebuffer: Some(2) },
            Command::AttachColor { texture: 11, layer: None, mip_level: 0 },
            Command::Clear(state),
            Command::GenerateMipMaps { texture: 11 },
        ]
    );
}

#[test]
fn write_skips_mip_regeneration_without_a_chain_or_with_a_fixed_level() {
    let rt = RenderTarget::new_color(color_attachment(8, 8), 2);
    let commands = rt.write(|| Vec::new());
    assert!(!commands.iter().any(|c| matches!(c, Command::GenerateMipMaps { .. })));

    let mut color = color_attachment(8, 8);
    color.texture_mip_count = 4;
    color.mip_level = Some(1);
    let rt = RenderTarget::new_color(color, 2);
    let commands = rt.write(|| Vec::new());
    assert!(!commands.iter().any(|c| matches!(c, Command::GenerateMipMaps { .. })));
}

#[test]
fn copy_pass_masks_channels_without_a_source() {
    let viewport = Viewport { x: 0, y: 0, width: 4, height: 4 };
    let mask = WriteMask::default();

    assert_eq!(copy_from(None, None, viewport, mask), None);

    let color_only = copy_from(Some(5), None, viewport, mask).unwrap();
    assert_eq!(color_only.shader, CopyShader::ColorOnly);
    assert!(color_only.write_mask.red && color_only.write_mask.alpha);
    assert!(!color_only.write_mask.depth);

    let depth_only = copy_from(None, Some(6), viewport, mask).unwrap();
    assert_eq!(depth_only.shader, CopyShader::DepthOnly);
    assert!(!depth_only.write_mask.red && !depth_only.write_mask.alpha);
    assert!(depth_only.write_mask.depth);

    let both = copy_from(Some(5), Some(6), viewport, mask).unwrap();
    assert_eq!(both.shader, CopyShader::ColorAndDepth);
    assert!(both.write_mask.red && both.write_mask.depth);
    assert!(!both.array);
}

#[test]
fn copy_pass_array_carries_the_layers() {
    let viewport = Viewport { x: 0, y: 0, width: 4, height: 4 };
    let pass = copy_from_array(Some((5, 2)), Some((6, 3)), viewport, WriteMask::default()).unwrap();
    assert!(pass.array);
    assert_eq!(pass.color_texture, Some(5));
    assert_eq!(pass.color_layer, Some(2));
    assert_eq!(pass.depth_texture, Some(6));
    assert_eq!(pass.depth_layer, Some(3));
    assert_eq!(copy_from_array(None, None, viewport, WriteMask::default()), None);
}

#[test]
fn copy_from_without_sources_is_a_bare_write() {
    let rt = RenderTarget::screen(4, 4);
    let scissor = rt.scissor_box();
    let commands = rt.copy_from(None, None, scissor, WriteMask::default());
    assert_eq!(
        commands,
        vec![
            Command::SetScissor(scissor),
            Command::BindFramebuffer { target: BindTarget::Draw, framebuffer: None },
        ]
    );
    let with_source = rt.copy_from(Some(5), None, scissor, WriteMask::default());
    assert!(with_source.iter().any(|c| matches!(c, Command::ApplyEffect(_))));
}

#[test]
fn size_with_mip_halves_per_level() {
    assert_eq!(size_with_mip(256, None), 256);
    assert_eq!(size_with_mip(256, Some(0)), 256);
    assert_eq!(size_with_mip(256, Some(3)), 32);
    assert_eq!(size_with_mip(100, Some(8)), 0);
}

#[test]
fn formats_follow_the_channel_count() {
    assert_eq!(format_from_data_type(TextureDataType { channels: 1, bytes_per_channel: 1, data_type: 0 }), RED);
    assert_eq!(format_from_data_type(TextureDataType { channels: 2, bytes_per_channel: 2, data_type: 0 }), RG);
    assert_eq!(format_from_data_type(TextureDataType { channels: 3, bytes_per_channel: 1, data_type: 0 }), RGB);
    assert_eq!(format_from_data_type(TextureDataType { channels: 4, bytes_per_channel: 4, data_type: 0 }), RGBA);
}

#[test]
fn byte_sized_channels_widen_the_transfer() {
    // every byte-sized format is read as the four-channel byte transfer
    assert_eq!(transfer_bytes_per_pixel(TextureDataType { channels: 1, bytes_per_channel: 1, data_type: 0 }), 4);
    assert_eq!(transfer_bytes_per_pixel(TextureDataType { channels: 2, bytes_per_channel: 1, data_type: 0 }), 4);
    assert_eq!(transfer_bytes_per_pixel(TextureDataType { channels: 3, bytes_per_channel: 1, data_type: 0 }), 4);
    assert_eq!(transfer_bytes_per_pixel(TextureDataType { channels: 4, bytes_per_channel: 1, data_type: 0 }), 4);
    // wider channels transfer as they are
    assert_eq!(transfer_bytes_per_pixel(TextureDataType { channels: 1, bytes_per_channel: 4, data_type: 0 }), 4);
    assert_eq!(transfer_bytes_per_pixel(TextureDataType { channels: 3, bytes_per_channel: 2, data_type: 0 }), 6);
    assert_eq!(transfer_bytes_per_pixel(TextureDataType { channels: 4, bytes_per_channel: 4, data_type: 0 }), 16);
}

#[test]
fn widened_transfer_sizes_the_read_buffer() {
    let rt = RenderTarget::new(color_attachment(2, 2), depth_attachment(2, 2), 1);
    let single_byte = TextureDataType { channels: 1, bytes_per_channel: 1, data_type: 0x1401 };
    assert_eq!(rt.read_color(single_byte).unwrap().byte_count, 2 * 2 * 4);
    assert_eq!(rt.read_color(single_byte).unwrap().format, RGBA);
    let rgb_bytes = TextureDataType { channels: 3, bytes_per_channel: 1, data_type: 0x1401 };
    assert_eq!(rt.read_color(rgb_bytes).unwrap().byte_count, 2 * 2 * 4);
    assert_eq!(rt.read_color(rgb_bytes).unwrap().format, RGBA);
    let rgb_floats = TextureDataType { channels: 3, bytes_per_channel: 4, data_type: 0x1406 };
    assert_eq!(rt.read_color(rgb_floats).unwrap().byte_count, 2 * 2 * 12);
    assert_eq!(rt.read_color(rgb_floats).unwrap().format, RGB);
}

#[test]
fn framebuffer_round_trip() {
    let rt = RenderTarget::from_framebuffer(10, 20, 5);
    assert_eq!(rt.width, 10);
    assert_eq!(rt.height, 20);
    assert_eq!(rt.into_framebuffer(), Some(5));
    assert_eq!(RenderTarget::screen(10, 20).into_framebuffer(), None);
}

#[test]
fn default_clear_state_and_write_mask() {
    let state = ClearState::default();
    assert_eq!(state.red, Some(0));
    assert_eq!(state.green, Some(0));
    assert_eq!(state.blue, Some(0));
    assert_eq!(state.alpha, Some(0x3F80_0000));
    assert_eq!(state.depth, Some(0x3F80_0000));
    assert!(state.clears_color());
    assert!(state.clears_depth());
    assert!(!ClearState::none().clears_color());
    assert!(!ClearState::none().clears_depth());

    let mask = WriteMask::default();
    assert!(mask.red && mask.green && mask.blue && mask.alpha && mask.depth);
    assert!(!WriteMask::color().depth);
    assert!(WriteMask::depth().depth && !WriteMask::depth().red);
}

#[test]
fn mip_level_scales_attachment_size() {
    let color = ColorTarget {
        texture: 11,
        texture_width: 64,
        texture_height: 32,
        texture_mip_count: 6,
        layer: None,
        mip_level: Some(2),
    };
    assert_eq!(color.width(), 16);
    assert_eq!(color.height(), 8);
}
