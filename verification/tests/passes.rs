//! Render passes, viewports and scissors.
use gles_command::command::Command;
use gles_command::encoder::CommandEncoder;
use gles_command::flags::{AttachmentOps, FormatAspects, PrivateCapabilities};
use gles_command::floats::FloatBits;
use gles_command::lists::Invalidated;
use gles_command::types::{
    Attachment, AttributeDesc, ClearColor, ColorAttachment, ColorTargetDesc,
    DepthStencilAttachment, Extent3d, PrimitiveState, Rect, RenderPassDescriptor, TextureInner,
    TextureSampleType, TextureView, VertexAttribKind, VertexFormatDesc,
};

const EXTENT: Extent3d = Extent3d { width: 640, height: 480, depth_or_array_layers: 1 };
const LOAD: AttachmentOps = AttachmentOps { bits: AttachmentOps::LOAD };
const STORE: AttachmentOps = AttachmentOps { bits: AttachmentOps::STORE };
const LOAD_AND_STORE: AttachmentOps = AttachmentOps { bits: 3 };
const NEITHER: AttachmentOps = AttachmentOps { bits: 0 };

fn encoder() -> CommandEncoder {
    CommandEncoder::new(PrivateCapabilities { bits: 0 })
}

fn float(value: f32) -> FloatBits {
    FloatBits { bits: value.to_bits() }
}

fn view(raw: u32, sample_type: TextureSampleType, aspects: u8) -> TextureView {
    TextureView {
        inner: TextureInner::Texture { raw, target: 0x0DE1 },
        sample_type,
        aspects: FormatAspects { bits: aspects },
        mip_levels: 0..1,
        array_layers: 2..3,
    }
}

fn color_view(raw: u32) -> TextureView {
    view(raw, TextureSampleType::Float { filterable: true }, FormatAspects::COLOR)
}

fn clear_color() -> ClearColor {
    ClearColor {
        float: [float(0.5), float(0.25), float(-1.0), float(1.0)],
        uint: [5, 6, 7, 8],
        sint: [-5, -6, 7, 8],
    }
}

fn color(target: TextureView, resolve: Option<TextureView>, ops: AttachmentOps) -> ColorAttachment {
    ColorAttachment {
        target: Attachment { view: target },
        resolve_target: resolve.map(|view| Attachment { view }),
        ops,
        clear_value: clear_color(),
    }
}

fn depth_stencil(
    aspects: u8,
    depth_ops: AttachmentOps,
    stencil_ops: AttachmentOps,
) -> DepthStencilAttachment {
    DepthStencilAttachment {
        target: Attachment { view: view(80, TextureSampleType::Depth, aspects) },
        depth_ops,
        stencil_ops,
        clear_value: (float(1.0), 17),
    }
}

fn discarded(points: &[u32]) -> Invalidated {
    points.iter().cloned().collect()
}

fn whole() -> Rect<i32> {
    Rect { x: 0, y: 0, w: 640, h: 480 }
}

/// The last commands of a pass over `depth_stencil` alone, and what is
/// discarded at its end.
fn depth_pass(attachment: &DepthStencilAttachment) -> (CommandEncoder, usize) {
    let mut encoder = encoder();
    encoder.begin_render_pass(&RenderPassDescriptor {
        label: None,
        extent: EXTENT,
        color_attachments: &[],
        depth_stencil_attachment: Some(attachment),
    });
    let begun = encoder.cmd_buffer.commands.len();
    (encoder, begun)
}

#[test]
fn a_pass_with_nothing_attached_resets_the_framebuffer() {
    let mut encoder = encoder();
    encoder.begin_render_pass(&RenderPassDescriptor {
        label: None,
        extent: EXTENT,
        color_attachments: &[],
        depth_stencil_attachment: None,
    });
    assert_eq!(
        encoder.cmd_buffer.commands,
        vec![
            Command::ResetFramebuffer,
            Command::SetDrawColorBuffers(0),
            Command::SetScissor(whole()),
            Command::SetViewport { rect: whole(), depth: float(0.0)..float(1.0) },
        ]
    );
    assert_eq!(encoder.state.render_size, EXTENT);
}

#[test]
fn a_pass_binds_clears_resolves_and_discards_as_described() {
    let mut encoder = encoder();
    let colors = [
        color(color_view(50), Some(color_view(60)), STORE),
        color(view(51, TextureSampleType::Uint, 1), None, NEITHER),
        color(view(52, TextureSampleType::Sint, 1), Some(color_view(62)), NEITHER),
        color(color_view(53), None, LOAD_AND_STORE),
    ];
    let depth = depth_stencil(FormatAspects::DEPTH | FormatAspects::STENCIL, NEITHER, LOAD);
    encoder.begin_render_pass(&RenderPassDescriptor {
        label: Some("main"),
        extent: EXTENT,
        color_attachments: &colors,
        depth_stencil_attachment: Some(&depth),
    });
    assert_eq!(
        encoder.cmd_buffer.commands,
        vec![
            Command::PushDebugGroup(0..4),
            Command::ResetFramebuffer,
            Command::BindAttachment { attachment: 0x8CE0, view: color_view(50) },
            Command::BindAttachment {
                attachment: 0x8CE1,
                view: view(51, TextureSampleType::Uint, 1),
            },
            Command::BindAttachment {
                attachment: 0x8CE2,
                view: view(52, TextureSampleType::Sint, 1),
            },
            Command::BindAttachment { attachment: 0x8CE3, view: color_view(53) },
            Command::BindAttachment {
                attachment: 0x821A,
                view: view(80, TextureSampleType::Depth, 6),
            },
            Command::SetDrawColorBuffers(4),
            Command::SetScissor(whole()),
            Command::SetViewport { rect: whole(), depth: float(0.0)..float(1.0) },
            Command::ClearColorF(0, clear_color().float),
            Command::ClearColorU(1, clear_color().uint),
            Command::ClearColorI(2, clear_color().sint),
            Command::ClearDepth(float(1.0)),
        ]
    );
    let begun = encoder.cmd_buffer.commands.len();
    encoder.end_render_pass();
    assert_eq!(
        encoder.cmd_buffer.commands[begun..],
        [
            Command::ResolveAttachment { attachment: 0x8CE0, dst: color_view(60), size: EXTENT },
            Command::ResolveAttachment { attachment: 0x8CE2, dst: color_view(62), size: EXTENT },
            Command::InvalidateAttachments(discarded(&[0x8CE1, 0x8CE2, 0x8D00, 0x8D20])),
            Command::PopDebugGroup,
        ]
    );
}

#[test]
fn the_end_of_a_pass_comes_once() {
    let mut encoder = encoder();
    let colors = [color(color_view(50), Some(color_view(60)), NEITHER)];
    encoder.begin_render_pass(&RenderPassDescriptor {
        label: Some("main"),
        extent: EXTENT,
        color_attachments: &colors,
        depth_stencil_attachment: None,
    });
    encoder.end_render_pass();
    let ended = encoder.cmd_buffer.commands.len();
    encoder.end_render_pass();
    assert_eq!(encoder.cmd_buffer.commands.len(), ended);
}

#[test]
fn the_end_of_a_pass_forgets_what_belongs_to_it() {
    let mut encoder = encoder();
    encoder.state.instance_vbuf_mask = 3;
    encoder.state.dirty_vbuf_mask = 1;
    encoder.state.color_targets.push(ColorTargetDesc::default());
    encoder.state.vertex_attributes.push(AttributeDesc {
        location: 0,
        offset: 0,
        buffer_index: 0,
        format_desc: VertexFormatDesc {
            element_count: 1,
            element_format: 0x1406,
            attrib_kind: VertexAttribKind::Float,
        },
    });
    encoder.state.primitive = PrimitiveState { front_face: 1, cull_face: 2, clamp_depth: true };
    encoder.state.topology = 4;
    encoder.end_render_pass();
    assert!(encoder.cmd_buffer.commands.is_empty());
    assert_eq!(encoder.state.instance_vbuf_mask, 0);
    assert_eq!(encoder.state.dirty_vbuf_mask, 0);
    assert!(encoder.state.color_targets.is_empty());
    assert!(encoder.state.vertex_attributes.is_empty());
    assert_eq!(encoder.state.primitive, PrimitiveState::default());
    assert_eq!(encoder.state.topology, 4);
}

#[test]
fn a_pass_that_is_begun_anew_forgets_the_ends_of_the_one_before() {
    let mut encoder = encoder();
    let colors = [color(color_view(50), Some(color_view(60)), NEITHER)];
    encoder.begin_render_pass(&RenderPassDescriptor {
        label: None,
        extent: EXTENT,
        color_attachments: &colors,
        depth_stencil_attachment: None,
    });
    encoder.begin_render_pass(&RenderPassDescriptor {
        label: None,
        extent: EXTENT,
        color_attachments: &[],
        depth_stencil_attachment: None,
    });
    let begun = encoder.cmd_buffer.commands.len();
    encoder.end_render_pass();
    assert_eq!(encoder.cmd_buffer.commands.len(), begun);
}

#[test]
fn depth_alone_has_its_own_attachment_point() {
    let (mut encoder, begun) = depth_pass(&depth_stencil(FormatAspects::DEPTH, STORE, STORE));
    assert_eq!(
        encoder.cmd_buffer.commands[1],
        Command::BindAttachment {
            attachment: 0x8D00,
            view: view(80, TextureSampleType::Depth, FormatAspects::DEPTH),
        }
    );
    assert_eq!(
        encoder.cmd_buffer.commands[5..],
        [Command::ClearDepth(float(1.0)), Command::ClearStencil(17)]
    );
    encoder.end_render_pass();
    assert_eq!(encoder.cmd_buffer.commands.len(), begun);
}

#[test]
fn stencil_alone_has_its_own_attachment_point() {
    let (mut encoder, begun) = depth_pass(&depth_stencil(FormatAspects::STENCIL, LOAD, LOAD));
    assert_eq!(
        encoder.cmd_buffer.commands[1],
        Command::BindAttachment {
            attachment: 0x8D20,
            view: view(80, TextureSampleType::Depth, FormatAspects::STENCIL),
        }
    );
    assert_eq!(begun, 5);
    encoder.end_render_pass();
    // Only the aspect that there is gets discarded.
    assert_eq!(
        encoder.cmd_buffer.commands[begun..],
        [Command::InvalidateAttachments(discarded(&[0x8D20]))]
    );
}

#[test]
fn a_depth_attachment_that_is_not_stored_is_discarded() {
    let (mut encoder, begun) = depth_pass(&depth_stencil(FormatAspects::DEPTH, LOAD, LOAD));
    encoder.end_render_pass();
    assert_eq!(
        encoder.cmd_buffer.commands[begun..],
        [Command::InvalidateAttachments(discarded(&[0x8D00]))]
    );
}

#[test]
fn a_color_attachment_of_a_depth_format_can_be_loaded() {
    let mut encoder = encoder();
    let colors = [color(view(50, TextureSampleType::Depth, 2), None, LOAD_AND_STORE)];
    encoder.begin_render_pass(&RenderPassDescriptor {
        label: None,
        extent: EXTENT,
        color_attachments: &colors,
        depth_stencil_attachment: None,
    });
    assert_eq!(encoder.cmd_buffer.commands.len(), 5);
}

#[test]
fn a_large_extent_wraps_around() {
    let mut encoder = encoder();
    encoder.begin_render_pass(&RenderPassDescriptor {
        label: None,
        extent: Extent3d { width: u32::MAX, height: 0x8000_0000, depth_or_array_layers: 1 },
        color_attachments: &[],
        depth_stencil_attachment: None,
    });
    assert_eq!(
        encoder.cmd_buffer.commands[2],
        Command::SetScissor(Rect { x: 0, y: 0, w: -1, h: i32::MIN })
    );
}

#[test]
fn viewports_scissors_and_blend_constants_are_recorded() {
    let mut encoder = encoder();
    let constants = [float(0.1), float(0.2), float(0.3), float(0.4)];
    encoder.set_viewport(Rect { x: -1, y: 2, w: 3, h: 4 }, float(0.25)..float(0.75));
    encoder.set_scissor_rect(&Rect { x: 5, y: 6, w: 7, h: u32::MAX });
    encoder.set_blend_constants(&constants);
    assert_eq!(
        encoder.cmd_buffer.commands,
        vec![
            Command::SetViewport {
                rect: Rect { x: -1, y: 2, w: 3, h: 4 },
                depth: float(0.25)..float(0.75),
            },
            Command::SetScissor(Rect { x: 5, y: 6, w: 7, h: -1 }),
            Command::SetBlendConstant(constants),
        ]
    );
}
